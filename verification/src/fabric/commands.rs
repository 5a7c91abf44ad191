//! The commands that the fabric runs on the host.
use crate::session::{command, Command, CommandView};
use vstd::prelude::*;

verus! {

/// Tells whether a namespace exists.
pub open spec fn ns_probe_cmd(ns: Seq<char>) -> CommandView {
    command("ip"@).arg("netns"@).arg("exec"@).arg(ns).arg("true"@)
}

pub(crate) fn ns_probe(ns: &str) -> (r: Command)
    ensures
        r@ == ns_probe_cmd(ns@),
{
    Command::new("ip").arg("netns").arg("exec").arg(ns).arg("true")
}

/// Makes a namespace.
pub open spec fn netns_add_cmd(ns: Seq<char>) -> CommandView {
    command("ip"@).arg("netns"@).arg("add"@).arg(ns)
}

pub(crate) fn netns_add(ns: &str) -> (r: Command)
    ensures
        r@ == netns_add_cmd(ns@),
{
    Command::new("ip").arg("netns").arg("add").arg(ns)
}

/// Removes a namespace.
pub open spec fn netns_del_cmd(ns: Seq<char>) -> CommandView {
    command("ip"@).arg("netns"@).arg("del"@).arg(ns)
}

pub(crate) fn netns_del(ns: &str) -> (r: Command)
    ensures
        r@ == netns_del_cmd(ns@),
{
    Command::new("ip").arg("netns").arg("del").arg(ns)
}

/// Removes what is left of a namespace.
pub open spec fn netns_delete_cmd(ns: Seq<char>) -> CommandView {
    command("ip"@).arg("netns"@).arg("delete"@).arg(ns)
}

pub(crate) fn netns_delete(ns: &str) -> (r: Command)
    ensures
        r@ == netns_delete_cmd(ns@),
{
    Command::new("ip").arg("netns").arg("delete").arg(ns)
}

/// Shows a link.
pub open spec fn link_show_cmd(dev: Seq<char>) -> CommandView {
    command("ip"@).arg("link"@).arg("show"@).arg("dev"@).arg(dev)
}

pub(crate) fn link_show(dev: &str) -> (r: Command)
    ensures
        r@ == link_show_cmd(dev@),
{
    Command::new("ip").arg("link").arg("show").arg("dev").arg(dev)
}

/// Shows a link of a namespace.
pub open spec fn ns_link_show_cmd(ns: Seq<char>, dev: Seq<char>) -> CommandView {
    command("ip"@).arg("netns"@).arg("exec"@).arg(ns).arg("ip"@).arg("link"@).arg("show"@)
        .arg("dev"@).arg(dev)
}

pub(crate) fn ns_link_show(ns: &str, dev: &str) -> (r: Command)
    ensures
        r@ == ns_link_show_cmd(ns@, dev@),
{
    Command::new("ip").arg("netns").arg("exec").arg(ns).arg("ip").arg("link").arg("show")
        .arg("dev").arg(dev)
}

/// Describes a link.
pub open spec fn link_detail_cmd(dev: Seq<char>) -> CommandView {
    command("ip"@).arg("-d"@).arg("link"@).arg("show"@).arg("dev"@).arg(dev)
}

pub(crate) fn link_detail(dev: &str) -> (r: Command)
    ensures
        r@ == link_detail_cmd(dev@),
{
    Command::new("ip").arg("-d").arg("link").arg("show").arg("dev").arg(dev)
}

/// Describes a link of a namespace.
pub open spec fn ns_link_detail_cmd(ns: Seq<char>, dev: Seq<char>) -> CommandView {
    command("ip"@).arg("netns"@).arg("exec"@).arg(ns).arg("ip"@).arg("-d"@).arg("link"@)
        .arg("show"@).arg("dev"@).arg(dev)
}

pub(crate) fn ns_link_detail(ns: &str, dev: &str) -> (r: Command)
    ensures
        r@ == ns_link_detail_cmd(ns@, dev@),
{
    Command::new("ip").arg("netns").arg("exec").arg(ns).arg("ip").arg("-d").arg("link")
        .arg("show").arg("dev").arg(dev)
}

/// Removes a link.
pub open spec fn link_del_cmd(dev: Seq<char>) -> CommandView {
    command("ip"@).arg("link"@).arg("del"@).arg(dev)
}

pub(crate) fn link_del(dev: &str) -> (r: Command)
    ensures
        r@ == link_del_cmd(dev@),
{
    Command::new("ip").arg("link").arg("del").arg(dev)
}

/// Removes a tap device.
pub open spec fn link_del_dev_cmd(dev: Seq<char>) -> CommandView {
    command("ip"@).arg("link"@).arg("del"@).arg("dev"@).arg(dev)
}

pub(crate) fn link_del_dev(dev: &str) -> (r: Command)
    ensures
        r@ == link_del_dev_cmd(dev@),
{
    Command::new("ip").arg("link").arg("del").arg("dev").arg(dev)
}

/// Removes a link of a namespace.
pub open spec fn ns_link_del_cmd(ns: Seq<char>, dev: Seq<char>) -> CommandView {
    command("ip"@).arg("netns"@).arg("exec"@).arg(ns).arg("ip"@).arg("link"@).arg("del"@)
        .arg(dev)
}

pub(crate) fn ns_link_del(ns: &str, dev: &str) -> (r: Command)
    ensures
        r@ == ns_link_del_cmd(ns@, dev@),
{
    Command::new("ip").arg("netns").arg("exec").arg(ns).arg("ip").arg("link").arg("del")
        .arg(dev)
}

/// Makes a WireGuard link.
pub open spec fn wireguard_add_cmd(dev: Seq<char>) -> CommandView {
    command("ip"@).arg("link"@).arg("add"@).arg(dev).arg("type"@).arg("wireguard"@)
}

pub(crate) fn wireguard_add(dev: &str) -> (r: Command)
    ensures
        r@ == wireguard_add_cmd(dev@),
{
    Command::new("ip").arg("link").arg("add").arg(dev).arg("type").arg("wireguard")
}

/// Moves a link into a namespace.
pub open spec fn link_to_ns_cmd(dev: Seq<char>, ns: Seq<char>) -> CommandView {
    command("ip"@).arg("link"@).arg("set"@).arg(dev).arg("netns"@).arg(ns)
}

pub(crate) fn link_to_ns(dev: &str, ns: &str) -> (r: Command)
    ensures
        r@ == link_to_ns_cmd(dev@, ns@),
{
    Command::new("ip").arg("link").arg("set").arg(dev).arg("netns").arg(ns)
}

/// Sets the key and the port of a WireGuard link.
pub open spec fn wireguard_setup_cmd(ns: Seq<char>, dev: Seq<char>, key: Seq<char>, port: Seq<char>) -> CommandView {
    command("ip"@).arg("netns"@).arg("exec"@).arg(ns).arg("wg"@).arg("set"@).arg(dev)
        .arg("private-key"@).arg(key).arg("listen-port"@).arg(port)
}

pub(crate) fn wireguard_setup(ns: &str, dev: &str, key: &str, port: &str) -> (r: Command)
    ensures
        r@ == wireguard_setup_cmd(ns@, dev@, key@, port@),
{
    Command::new("ip").arg("netns").arg("exec").arg(ns).arg("wg").arg("set").arg(dev)
        .arg("private-key").arg(key).arg("listen-port").arg(port)
}

/// Starts a link of a namespace.
pub open spec fn ns_link_start_cmd(ns: Seq<char>, dev: Seq<char>) -> CommandView {
    command("ip"@).arg("netns"@).arg("exec"@).arg(ns).arg("ip"@).arg("link"@).arg("set"@)
        .arg(dev).arg("up"@)
}

pub(crate) fn ns_link_start(ns: &str, dev: &str) -> (r: Command)
    ensures
        r@ == ns_link_start_cmd(ns@, dev@),
{
    Command::new("ip").arg("netns").arg("exec").arg(ns).arg("ip").arg("link").arg("set")
        .arg(dev).arg("up")
}

/// Gives a link of a namespace an address.
pub open spec fn ns_addr_replace_cmd(ns: Seq<char>, cidr: Seq<char>, dev: Seq<char>) -> CommandView {
    command("ip"@).arg("netns"@).arg("exec"@).arg(ns).arg("ip"@).arg("addr"@).arg("replace"@)
        .arg(cidr).arg("dev"@).arg(dev)
}

pub(crate) fn ns_addr_replace(ns: &str, cidr: &str, dev: &str) -> (r: Command)
    ensures
        r@ == ns_addr_replace_cmd(ns@, cidr@, dev@),
{
    Command::new("ip").arg("netns").arg("exec").arg(ns).arg("ip").arg("addr").arg("replace")
        .arg(cidr).arg("dev").arg(dev)
}

/// Makes a pair of links.
pub open spec fn veth_add_cmd(dev: Seq<char>, peer: Seq<char>) -> CommandView {
    command("ip"@).arg("link"@).arg("add"@).arg(dev).arg("type"@).arg("veth"@).arg("peer"@)
        .arg("name"@).arg(peer)
}

pub(crate) fn veth_add(dev: &str, peer: &str) -> (r: Command)
    ensures
        r@ == veth_add_cmd(dev@, peer@),
{
    Command::new("ip").arg("link").arg("add").arg(dev).arg("type").arg("veth").arg("peer")
        .arg("name").arg(peer)
}

/// Starts a link.
pub open spec fn link_start_cmd(dev: Seq<char>) -> CommandView {
    command("ip"@).arg("link"@).arg("set"@).arg(dev).arg("up"@)
}

pub(crate) fn link_start(dev: &str) -> (r: Command)
    ensures
        r@ == link_start_cmd(dev@),
{
    Command::new("ip").arg("link").arg("set").arg(dev).arg("up")
}

/// Gives a link an address.
pub open spec fn addr_replace_cmd(cidr: Seq<char>, dev: Seq<char>) -> CommandView {
    command("ip"@).arg("addr"@).arg("replace"@).arg(cidr).arg("dev"@).arg(dev)
}

pub(crate) fn addr_replace(cidr: &str, dev: &str) -> (r: Command)
    ensures
        r@ == addr_replace_cmd(cidr@, dev@),
{
    Command::new("ip").arg("addr").arg("replace").arg(cidr).arg("dev").arg(dev)
}

/// Sets the default route of a namespace.
pub open spec fn ns_default_via_cmd(ns: Seq<char>, via: Seq<char>) -> CommandView {
    command("ip"@).arg("netns"@).arg("exec"@).arg(ns).arg("ip"@).arg("route"@).arg("replace"@)
        .arg("default"@).arg("via"@).arg(via)
}

pub(crate) fn ns_default_via(ns: &str, via: &str) -> (r: Command)
    ensures
        r@ == ns_default_via_cmd(ns@, via@),
{
    Command::new("ip").arg("netns").arg("exec").arg(ns).arg("ip").arg("route").arg("replace")
        .arg("default").arg("via").arg(via)
}

/// Sets the default route of a namespace through a link.
pub open spec fn ns_default_via_dev_cmd(ns: Seq<char>, via: Seq<char>, dev: Seq<char>) -> CommandView {
    command("ip"@).arg("netns"@).arg("exec"@).arg(ns).arg("ip"@).arg("route"@).arg("replace"@)
        .arg("default"@).arg("via"@).arg(via).arg("dev"@).arg(dev)
}

pub(crate) fn ns_default_via_dev(ns: &str, via: &str, dev: &str) -> (r: Command)
    ensures
        r@ == ns_default_via_dev_cmd(ns@, via@, dev@),
{
    Command::new("ip").arg("netns").arg("exec").arg(ns).arg("ip").arg("route").arg("replace")
        .arg("default").arg("via").arg(via).arg("dev").arg(dev)
}

/// Sets a kernel parameter.
pub open spec fn sysctl_write_cmd(setting: Seq<char>) -> CommandView {
    command("sysctl"@).arg("-w"@).arg(setting)
}

pub(crate) fn sysctl_write(setting: &str) -> (r: Command)
    ensures
        r@ == sysctl_write_cmd(setting@),
{
    Command::new("sysctl").arg("-w").arg(setting)
}

/// Sets a kernel parameter of a namespace.
pub open spec fn ns_sysctl_write_cmd(ns: Seq<char>, setting: Seq<char>) -> CommandView {
    command("ip"@).arg("netns"@).arg("exec"@).arg(ns).arg("sysctl"@).arg("-w"@).arg(setting)
}

pub(crate) fn ns_sysctl_write(ns: &str, setting: &str) -> (r: Command)
    ensures
        r@ == ns_sysctl_write_cmd(ns@, setting@),
{
    Command::new("ip").arg("netns").arg("exec").arg(ns).arg("sysctl").arg("-w").arg(setting)
}

/// Adds or removes the rule that hides the fabric behind the host.
pub open spec fn masquerade_cmd(op: Seq<char>) -> CommandView {
    command("iptables"@).arg("-t"@).arg("nat"@).arg(op).arg("POSTROUTING"@).arg("-s"@)
        .arg("169.254.253.0/30"@).arg("-j"@).arg("MASQUERADE"@)
}

pub(crate) fn masquerade(op: &str) -> (r: Command)
    ensures
        r@ == masquerade_cmd(op@),
{
    Command::new("iptables").arg("-t").arg("nat").arg(op).arg("POSTROUTING").arg("-s")
        .arg("169.254.253.0/30").arg("-j").arg("MASQUERADE")
}

/// Adds or removes the rule that hands WireGuard packets to the fabric.
pub open spec fn forward_wireguard_cmd(op: Seq<char>, port: Seq<char>) -> CommandView {
    command("iptables"@).arg("-t"@).arg("nat"@).arg(op).arg("PREROUTING"@).arg("!"@).arg("-i"@)
        .arg("o3k-u"@).arg("-p"@).arg("udp"@).arg("--dport"@).arg(port).arg("-j"@).arg("DNAT"@)
        .arg("--to-destination"@).arg("169.254.253.2"@)
}

pub(crate) fn forward_wireguard(op: &str, port: &str) -> (r: Command)
    ensures
        r@ == forward_wireguard_cmd(op@, port@),
{
    Command::new("iptables").arg("-t").arg("nat").arg(op).arg("PREROUTING").arg("!").arg("-i")
        .arg("o3k-u").arg("-p").arg("udp").arg("--dport").arg(port).arg("-j").arg("DNAT")
        .arg("--to-destination").arg("169.254.253.2")
}

/// Adds or removes the rule without a condition on the link.
pub open spec fn forward_wireguard_any_cmd(op: Seq<char>, port: Seq<char>) -> CommandView {
    command("iptables"@).arg("-t"@).arg("nat"@).arg(op).arg("PREROUTING"@).arg("-p"@)
        .arg("udp"@).arg("--dport"@).arg(port).arg("-j"@).arg("DNAT"@).arg("--to-destination"@)
        .arg("169.254.253.2"@)
}

pub(crate) fn forward_wireguard_any(op: &str, port: &str) -> (r: Command)
    ensures
        r@ == forward_wireguard_any_cmd(op@, port@),
{
    Command::new("iptables").arg("-t").arg("nat").arg(op).arg("PREROUTING").arg("-p").arg("udp")
        .arg("--dport").arg(port).arg("-j").arg("DNAT").arg("--to-destination")
        .arg("169.254.253.2")
}

/// Removes a peer.
pub open spec fn peer_remove_cmd(ns: Seq<char>, dev: Seq<char>, key: Seq<char>) -> CommandView {
    command("ip"@).arg("netns"@).arg("exec"@).arg(ns).arg("wg"@).arg("set"@).arg(dev)
        .arg("peer"@).arg(key).arg("remove"@)
}

pub(crate) fn peer_remove(ns: &str, dev: &str, key: &str) -> (r: Command)
    ensures
        r@ == peer_remove_cmd(ns@, dev@, key@),
{
    Command::new("ip").arg("netns").arg("exec").arg(ns).arg("wg").arg("set").arg(dev)
        .arg("peer").arg(key).arg("remove")
}

/// Sets the endpoint and the address of a peer.
pub open spec fn peer_set_cmd(ns: Seq<char>, dev: Seq<char>, key: Seq<char>, endpoint: Seq<char>, allowed: Seq<char>) -> CommandView {
    command("ip"@).arg("netns"@).arg("exec"@).arg(ns).arg("wg"@).arg("set"@).arg(dev)
        .arg("peer"@).arg(key).arg("endpoint"@).arg(endpoint).arg("allowed-ips"@).arg(allowed)
}

pub(crate) fn peer_set(ns: &str, dev: &str, key: &str, endpoint: &str, allowed: &str) -> (r: Command)
    ensures
        r@ == peer_set_cmd(ns@, dev@, key@, endpoint@, allowed@),
{
    Command::new("ip").arg("netns").arg("exec").arg(ns).arg("wg").arg("set").arg(dev)
        .arg("peer").arg(key).arg("endpoint").arg(endpoint).arg("allowed-ips").arg(allowed)
}

/// Routes a destination through a link of a namespace.
pub open spec fn ns_route_replace_cmd(ns: Seq<char>, dest: Seq<char>, dev: Seq<char>) -> CommandView {
    command("ip"@).arg("netns"@).arg("exec"@).arg(ns).arg("ip"@).arg("route"@).arg("replace"@)
        .arg(dest).arg("dev"@).arg(dev)
}

pub(crate) fn ns_route_replace(ns: &str, dest: &str, dev: &str) -> (r: Command)
    ensures
        r@ == ns_route_replace_cmd(ns@, dest@, dev@),
{
    Command::new("ip").arg("netns").arg("exec").arg(ns).arg("ip").arg("route").arg("replace")
        .arg(dest).arg("dev").arg(dev)
}

/// Makes a bridge.
pub open spec fn bridge_add_cmd(dev: Seq<char>) -> CommandView {
    command("ip"@).arg("link"@).arg("add"@).arg(dev).arg("type"@).arg("bridge"@)
}

pub(crate) fn bridge_add(dev: &str) -> (r: Command)
    ensures
        r@ == bridge_add_cmd(dev@),
{
    Command::new("ip").arg("link").arg("add").arg(dev).arg("type").arg("bridge")
}

/// Attaches a link to a bridge.
pub open spec fn link_join_cmd(dev: Seq<char>, bridge: Seq<char>) -> CommandView {
    command("ip"@).arg("link"@).arg("set"@).arg(dev).arg("master"@).arg(bridge)
}

pub(crate) fn link_join(dev: &str, bridge: &str) -> (r: Command)
    ensures
        r@ == link_join_cmd(dev@, bridge@),
{
    Command::new("ip").arg("link").arg("set").arg(dev).arg("master").arg(bridge)
}

/// Sets the MTU of a link.
pub open spec fn link_mtu_cmd(dev: Seq<char>, mtu: Seq<char>) -> CommandView {
    command("ip"@).arg("link"@).arg("set"@).arg("dev"@).arg(dev).arg("mtu"@).arg(mtu)
}

pub(crate) fn link_mtu(dev: &str, mtu: &str) -> (r: Command)
    ensures
        r@ == link_mtu_cmd(dev@, mtu@),
{
    Command::new("ip").arg("link").arg("set").arg("dev").arg(dev).arg("mtu").arg(mtu)
}

/// Sets the MTU of a link of a namespace.
pub open spec fn ns_link_mtu_cmd(ns: Seq<char>, dev: Seq<char>, mtu: Seq<char>) -> CommandView {
    command("ip"@).arg("netns"@).arg("exec"@).arg(ns).arg("ip"@).arg("link"@).arg("set"@)
        .arg("dev"@).arg(dev).arg("mtu"@).arg(mtu)
}

pub(crate) fn ns_link_mtu(ns: &str, dev: &str, mtu: &str) -> (r: Command)
    ensures
        r@ == ns_link_mtu_cmd(ns@, dev@, mtu@),
{
    Command::new("ip").arg("netns").arg("exec").arg(ns).arg("ip").arg("link").arg("set")
        .arg("dev").arg(dev).arg("mtu").arg(mtu)
}

/// Fixes the hardware address of a neighbour.
pub open spec fn ns_neigh_permanent_cmd(ns: Seq<char>, addr: Seq<char>, mac: Seq<char>, dev: Seq<char>) -> CommandView {
    command("ip"@).arg("netns"@).arg("exec"@).arg(ns).arg("ip"@).arg("neigh"@).arg("replace"@)
        .arg(addr).arg("lladdr"@).arg(mac).arg("nud"@).arg("permanent"@).arg("dev"@).arg(dev)
}

pub(crate) fn ns_neigh_permanent(ns: &str, addr: &str, mac: &str, dev: &str) -> (r: Command)
    ensures
        r@ == ns_neigh_permanent_cmd(ns@, addr@, mac@, dev@),
{
    Command::new("ip").arg("netns").arg("exec").arg(ns).arg("ip").arg("neigh").arg("replace")
        .arg(addr).arg("lladdr").arg(mac).arg("nud").arg("permanent").arg("dev").arg(dev)
}

/// Answers for an address on a link of a namespace.
pub open spec fn ns_neigh_proxy_cmd(ns: Seq<char>, addr: Seq<char>, dev: Seq<char>) -> CommandView {
    command("ip"@).arg("netns"@).arg("exec"@).arg(ns).arg("ip"@).arg("neigh"@).arg("replace"@)
        .arg("proxy"@).arg(addr).arg("dev"@).arg(dev)
}

pub(crate) fn ns_neigh_proxy(ns: &str, addr: &str, dev: &str) -> (r: Command)
    ensures
        r@ == ns_neigh_proxy_cmd(ns@, addr@, dev@),
{
    Command::new("ip").arg("netns").arg("exec").arg(ns).arg("ip").arg("neigh").arg("replace")
        .arg("proxy").arg(addr).arg("dev").arg(dev)
}

/// Makes a tap device.
pub open spec fn tap_add_cmd(dev: Seq<char>) -> CommandView {
    command("ip"@).arg("tuntap"@).arg("add"@).arg("dev"@).arg(dev).arg("mode"@).arg("tap"@)
}

pub(crate) fn tap_add(dev: &str) -> (r: Command)
    ensures
        r@ == tap_add_cmd(dev@),
{
    Command::new("ip").arg("tuntap").arg("add").arg("dev").arg(dev).arg("mode").arg("tap")
}

/// Sets the hardware address of a link.
pub open spec fn link_address_cmd(dev: Seq<char>, mac: Seq<char>) -> CommandView {
    command("ip"@).arg("link"@).arg("set"@).arg("dev"@).arg(dev).arg("address"@).arg(mac)
}

pub(crate) fn link_address(dev: &str, mac: &str) -> (r: Command)
    ensures
        r@ == link_address_cmd(dev@, mac@),
{
    Command::new("ip").arg("link").arg("set").arg("dev").arg(dev).arg("address").arg(mac)
}

/// Attaches a device to a bridge.
pub open spec fn link_master_cmd(dev: Seq<char>, bridge: Seq<char>) -> CommandView {
    command("ip"@).arg("link"@).arg("set"@).arg("dev"@).arg(dev).arg("master"@).arg(bridge)
}

pub(crate) fn link_master(dev: &str, bridge: &str) -> (r: Command)
    ensures
        r@ == link_master_cmd(dev@, bridge@),
{
    Command::new("ip").arg("link").arg("set").arg("dev").arg(dev).arg("master").arg(bridge)
}

/// Starts a device.
pub open spec fn link_up_cmd(dev: Seq<char>) -> CommandView {
    command("ip"@).arg("link"@).arg("set"@).arg("dev"@).arg(dev).arg("up"@)
}

pub(crate) fn link_up(dev: &str) -> (r: Command)
    ensures
        r@ == link_up_cmd(dev@),
{
    Command::new("ip").arg("link").arg("set").arg("dev").arg(dev).arg("up")
}

/// Makes a tunnel.
pub open spec fn geneve_add_cmd(ns: Seq<char>, dev: Seq<char>, vni: Seq<char>, remote: Seq<char>, port: Seq<char>) -> CommandView {
    command("ip"@).arg("netns"@).arg("exec"@).arg(ns).arg("ip"@).arg("link"@).arg("add"@)
        .arg(dev).arg("type"@).arg("geneve"@).arg("id"@).arg(vni).arg("remote"@).arg(remote)
        .arg("dstport"@).arg(port)
}

pub(crate) fn geneve_add(ns: &str, dev: &str, vni: &str, remote: &str, port: &str) -> (r: Command)
    ensures
        r@ == geneve_add_cmd(ns@, dev@, vni@, remote@, port@),
{
    Command::new("ip").arg("netns").arg("exec").arg(ns).arg("ip").arg("link").arg("add")
        .arg(dev).arg("type").arg("geneve").arg("id").arg(vni).arg("remote").arg(remote)
        .arg("dstport").arg(port)
}

/// Sets the hardware address of a link of a namespace.
pub open spec fn ns_link_address_cmd(ns: Seq<char>, dev: Seq<char>, mac: Seq<char>) -> CommandView {
    command("ip"@).arg("netns"@).arg("exec"@).arg(ns).arg("ip"@).arg("link"@).arg("set"@)
        .arg("dev"@).arg(dev).arg("address"@).arg(mac)
}

pub(crate) fn ns_link_address(ns: &str, dev: &str, mac: &str) -> (r: Command)
    ensures
        r@ == ns_link_address_cmd(ns@, dev@, mac@),
{
    Command::new("ip").arg("netns").arg("exec").arg(ns).arg("ip").arg("link").arg("set")
        .arg("dev").arg(dev).arg("address").arg(mac)
}

/// Makes a bridge in a namespace.
pub open spec fn ns_bridge_add_cmd(ns: Seq<char>, dev: Seq<char>) -> CommandView {
    command("ip"@).arg("netns"@).arg("exec"@).arg(ns).arg("ip"@).arg("link"@).arg("add"@)
        .arg(dev).arg("type"@).arg("bridge"@)
}

pub(crate) fn ns_bridge_add(ns: &str, dev: &str) -> (r: Command)
    ensures
        r@ == ns_bridge_add_cmd(ns@, dev@),
{
    Command::new("ip").arg("netns").arg("exec").arg(ns).arg("ip").arg("link").arg("add")
        .arg(dev).arg("type").arg("bridge")
}

/// Starts a device of a namespace.
pub open spec fn ns_link_up_cmd(ns: Seq<char>, dev: Seq<char>) -> CommandView {
    command("ip"@).arg("netns"@).arg("exec"@).arg(ns).arg("ip"@).arg("link"@).arg("set"@)
        .arg("dev"@).arg(dev).arg("up"@)
}

pub(crate) fn ns_link_up(ns: &str, dev: &str) -> (r: Command)
    ensures
        r@ == ns_link_up_cmd(ns@, dev@),
{
    Command::new("ip").arg("netns").arg("exec").arg(ns).arg("ip").arg("link").arg("set")
        .arg("dev").arg(dev).arg("up")
}

/// Attaches a device to a bridge of a namespace.
pub open spec fn ns_link_master_cmd(ns: Seq<char>, dev: Seq<char>, bridge: Seq<char>) -> CommandView {
    command("ip"@).arg("netns"@).arg("exec"@).arg(ns).arg("ip"@).arg("link"@).arg("set"@)
        .arg("dev"@).arg(dev).arg("master"@).arg(bridge)
}

pub(crate) fn ns_link_master(ns: &str, dev: &str, bridge: &str) -> (r: Command)
    ensures
        r@ == ns_link_master_cmd(ns@, dev@, bridge@),
{
    Command::new("ip").arg("netns").arg("exec").arg(ns).arg("ip").arg("link").arg("set")
        .arg("dev").arg(dev).arg("master").arg(bridge)
}

/// Fixes the port behind which a hardware address is.
pub open spec fn fdb_replace_cmd(ns: Seq<char>, mac: Seq<char>, dev: Seq<char>) -> CommandView {
    command("ip"@).arg("netns"@).arg("exec"@).arg(ns).arg("bridge"@).arg("fdb"@).arg("replace"@)
        .arg(mac).arg("dev"@).arg(dev).arg("master"@).arg("static"@)
}

pub(crate) fn fdb_replace(ns: &str, mac: &str, dev: &str) -> (r: Command)
    ensures
        r@ == fdb_replace_cmd(ns@, mac@, dev@),
{
    Command::new("ip").arg("netns").arg("exec").arg(ns).arg("bridge").arg("fdb").arg("replace")
        .arg(mac).arg("dev").arg(dev).arg("master").arg("static")
}

/// Lists the ports of a bridge of a namespace.
pub open spec fn ns_bridge_ports_cmd(ns: Seq<char>, bridge: Seq<char>) -> CommandView {
    command("ip"@).arg("netns"@).arg("exec"@).arg(ns).arg("ip"@).arg("-o"@).arg("link"@)
        .arg("show"@).arg("master"@).arg(bridge)
}

pub(crate) fn ns_bridge_ports(ns: &str, bridge: &str) -> (r: Command)
    ensures
        r@ == ns_bridge_ports_cmd(ns@, bridge@),
{
    Command::new("ip").arg("netns").arg("exec").arg(ns).arg("ip").arg("-o").arg("link")
        .arg("show").arg("master").arg(bridge)
}

/// Lists a table of a namespace.
pub open spec fn ns_table_list_cmd(ns: Seq<char>, table: Seq<char>) -> CommandView {
    command("ip"@).arg("netns"@).arg("exec"@).arg(ns).arg("nft"@).arg("list"@).arg("table"@)
        .arg("ip"@).arg(table)
}

pub(crate) fn ns_table_list(ns: &str, table: &str) -> (r: Command)
    ensures
        r@ == ns_table_list_cmd(ns@, table@),
{
    Command::new("ip").arg("netns").arg("exec").arg(ns).arg("nft").arg("list").arg("table")
        .arg("ip").arg(table)
}

/// Removes a table of a namespace.
pub open spec fn ns_table_del_cmd(ns: Seq<char>, table: Seq<char>) -> CommandView {
    command("ip"@).arg("netns"@).arg("exec"@).arg(ns).arg("nft"@).arg("delete"@).arg("table"@)
        .arg("ip"@).arg(table)
}

pub(crate) fn ns_table_del(ns: &str, table: &str) -> (r: Command)
    ensures
        r@ == ns_table_del_cmd(ns@, table@),
{
    Command::new("ip").arg("netns").arg("exec").arg(ns).arg("nft").arg("delete").arg("table")
        .arg("ip").arg(table)
}

/// Makes a table of a namespace.
pub open spec fn ns_table_add_cmd(ns: Seq<char>, table: Seq<char>, comment: Seq<char>) -> CommandView {
    command("ip"@).arg("netns"@).arg("exec"@).arg(ns).arg("nft"@).arg("add"@).arg("table"@)
        .arg("ip"@).arg(table).arg("{"@).arg("comment"@).arg(comment).arg(";"@).arg("}"@)
}

pub(crate) fn ns_table_add(ns: &str, table: &str, comment: &str) -> (r: Command)
    ensures
        r@ == ns_table_add_cmd(ns@, table@, comment@),
{
    Command::new("ip").arg("netns").arg("exec").arg(ns).arg("nft").arg("add").arg("table")
        .arg("ip").arg(table).arg("{").arg("comment").arg(comment).arg(";").arg("}")
}

/// Makes a chain of a table of a namespace.
pub open spec fn ns_chain_add_cmd(ns: Seq<char>, table: Seq<char>, chain: Seq<char>, kind: Seq<char>, priority: Seq<char>) -> CommandView {
    command("ip"@).arg("netns"@).arg("exec"@).arg(ns).arg("nft"@).arg("add"@).arg("chain"@)
        .arg("ip"@).arg(table).arg(chain).arg("{"@).arg("type"@).arg(kind).arg("hook"@)
        .arg(chain).arg("priority"@).arg(priority).arg(";"@).arg("policy"@).arg("accept"@)
        .arg(";"@).arg("}"@)
}

pub(crate) fn ns_chain_add(ns: &str, table: &str, chain: &str, kind: &str, priority: &str) -> (r: Command)
    ensures
        r@ == ns_chain_add_cmd(ns@, table@, chain@, kind@, priority@),
{
    Command::new("ip").arg("netns").arg("exec").arg(ns).arg("nft").arg("add").arg("chain")
        .arg("ip").arg(table).arg(chain).arg("{").arg("type").arg(kind).arg("hook").arg(chain)
        .arg("priority").arg(priority).arg(";").arg("policy").arg("accept").arg(";").arg("}")
}

/// Accepts the packets of known connections.
pub open spec fn ns_rule_established_cmd(ns: Seq<char>, table: Seq<char>) -> CommandView {
    command("ip"@).arg("netns"@).arg("exec"@).arg(ns).arg("nft"@).arg("add"@).arg("rule"@)
        .arg("ip"@).arg(table).arg("forward"@).arg("ct"@).arg("state"@)
        .arg("established,related"@).arg("accept"@).arg("comment"@).arg("o3k-p11-policy"@)
}

pub(crate) fn ns_rule_established(ns: &str, table: &str) -> (r: Command)
    ensures
        r@ == ns_rule_established_cmd(ns@, table@),
{
    Command::new("ip").arg("netns").arg("exec").arg(ns).arg("nft").arg("add").arg("rule")
        .arg("ip").arg(table).arg("forward").arg("ct").arg("state").arg("established,related")
        .arg("accept").arg("comment").arg("o3k-p11-policy")
}

/// The beginning of a rule of the forward chain.
pub open spec fn ns_rule_cmd(ns: Seq<char>, table: Seq<char>) -> CommandView {
    command("ip"@).arg("netns"@).arg("exec"@).arg(ns).arg("nft"@).arg("add"@).arg("rule"@)
        .arg("ip"@).arg(table).arg("forward"@)
}

pub(crate) fn ns_rule(ns: &str, table: &str) -> (r: Command)
    ensures
        r@ == ns_rule_cmd(ns@, table@),
{
    Command::new("ip").arg("netns").arg("exec").arg(ns).arg("nft").arg("add").arg("rule")
        .arg("ip").arg(table).arg("forward")
}

/// Lists a table.
pub open spec fn table_list_cmd(table: Seq<char>) -> CommandView {
    command("nft"@).arg("list"@).arg("table"@).arg("ip"@).arg(table)
}

pub(crate) fn table_list(table: &str) -> (r: Command)
    ensures
        r@ == table_list_cmd(table@),
{
    Command::new("nft").arg("list").arg("table").arg("ip").arg(table)
}

/// Removes a table.
pub open spec fn table_del_cmd(table: Seq<char>) -> CommandView {
    command("nft"@).arg("delete"@).arg("table"@).arg("ip"@).arg(table)
}

pub(crate) fn table_del(table: &str) -> (r: Command)
    ensures
        r@ == table_del_cmd(table@),
{
    Command::new("nft").arg("delete").arg("table").arg("ip").arg(table)
}

/// Makes a table.
pub open spec fn table_add_cmd(table: Seq<char>, comment: Seq<char>) -> CommandView {
    command("nft"@).arg("add"@).arg("table"@).arg("ip"@).arg(table).arg("{"@).arg("comment"@)
        .arg(comment).arg(";"@).arg("}"@)
}

pub(crate) fn table_add(table: &str, comment: &str) -> (r: Command)
    ensures
        r@ == table_add_cmd(table@, comment@),
{
    Command::new("nft").arg("add").arg("table").arg("ip").arg(table).arg("{").arg("comment")
        .arg(comment).arg(";").arg("}")
}

/// Makes a chain of a table.
pub open spec fn chain_add_cmd(table: Seq<char>, chain: Seq<char>, kind: Seq<char>, priority: Seq<char>) -> CommandView {
    command("nft"@).arg("add"@).arg("chain"@).arg("ip"@).arg(table).arg(chain).arg("{"@)
        .arg("type"@).arg(kind).arg("hook"@).arg(chain).arg("priority"@).arg(priority).arg(";"@)
        .arg("policy"@).arg("accept"@).arg(";"@).arg("}"@)
}

pub(crate) fn chain_add(table: &str, chain: &str, kind: &str, priority: &str) -> (r: Command)
    ensures
        r@ == chain_add_cmd(table@, chain@, kind@, priority@),
{
    Command::new("nft").arg("add").arg("chain").arg("ip").arg(table).arg(chain).arg("{")
        .arg("type").arg(kind).arg("hook").arg(chain).arg("priority").arg(priority).arg(";")
        .arg("policy").arg("accept").arg(";").arg("}")
}

/// Routes a destination in a route table.
pub open spec fn route_in_table_cmd(table: Seq<char>, dest: Seq<char>, via: Seq<char>, dev: Seq<char>) -> CommandView {
    command("ip"@).arg("route"@).arg("replace"@).arg("table"@).arg(table).arg(dest).arg("via"@)
        .arg(via).arg("dev"@).arg(dev)
}

pub(crate) fn route_in_table(table: &str, dest: &str, via: &str, dev: &str) -> (r: Command)
    ensures
        r@ == route_in_table_cmd(table@, dest@, via@, dev@),
{
    Command::new("ip").arg("route").arg("replace").arg("table").arg(table).arg(dest).arg("via")
        .arg(via).arg("dev").arg(dev)
}

/// Answers for an address on a link.
pub open spec fn neigh_proxy_cmd(addr: Seq<char>, dev: Seq<char>) -> CommandView {
    command("ip"@).arg("neigh"@).arg("replace"@).arg("proxy"@).arg(addr).arg("dev"@).arg(dev)
}

pub(crate) fn neigh_proxy(addr: &str, dev: &str) -> (r: Command)
    ensures
        r@ == neigh_proxy_cmd(addr@, dev@),
{
    Command::new("ip").arg("neigh").arg("replace").arg("proxy").arg(addr).arg("dev").arg(dev)
}

/// Stops answering for an address on a link.
pub open spec fn neigh_proxy_del_cmd(addr: Seq<char>, dev: Seq<char>) -> CommandView {
    command("ip"@).arg("neigh"@).arg("del"@).arg("proxy"@).arg(addr).arg("dev"@).arg(dev)
}

pub(crate) fn neigh_proxy_del(addr: &str, dev: &str) -> (r: Command)
    ensures
        r@ == neigh_proxy_del_cmd(addr@, dev@),
{
    Command::new("ip").arg("neigh").arg("del").arg("proxy").arg(addr).arg("dev").arg(dev)
}

/// Lists a route table.
pub open spec fn route_show_cmd(table: Seq<char>) -> CommandView {
    command("ip"@).arg("route"@).arg("show"@).arg("table"@).arg(table)
}

pub(crate) fn route_show(table: &str) -> (r: Command)
    ensures
        r@ == route_show_cmd(table@),
{
    Command::new("ip").arg("route").arg("show").arg("table").arg(table)
}

/// Removes a destination from a route table.
pub open spec fn route_del_cmd(table: Seq<char>, dest: Seq<char>, dev: Seq<char>) -> CommandView {
    command("ip"@).arg("route"@).arg("del"@).arg("table"@).arg(table).arg(dest).arg("dev"@)
        .arg(dev)
}

pub(crate) fn route_del(table: &str, dest: &str, dev: &str) -> (r: Command)
    ensures
        r@ == route_del_cmd(table@, dest@, dev@),
{
    Command::new("ip").arg("route").arg("del").arg("table").arg(table).arg(dest).arg("dev")
        .arg(dev)
}

/// Lists the routing rules.
pub open spec fn rule_list_cmd() -> CommandView {
    command("ip"@).arg("rule"@).arg("list"@)
}

pub(crate) fn rule_list() -> (r: Command)
    ensures
        r@ == rule_list_cmd(),
{
    Command::new("ip").arg("rule").arg("list")
}

/// Routes marked packets by a route table.
pub open spec fn rule_add_cmd(mark: Seq<char>, table: Seq<char>) -> CommandView {
    command("ip"@).arg("rule"@).arg("add"@).arg("fwmark"@).arg(mark).arg("table"@).arg(table)
}

pub(crate) fn rule_add(mark: &str, table: &str) -> (r: Command)
    ensures
        r@ == rule_add_cmd(mark@, table@),
{
    Command::new("ip").arg("rule").arg("add").arg("fwmark").arg(mark).arg("table").arg(table)
}

/// Stops routing marked packets by a route table.
pub open spec fn rule_del_cmd(mark: Seq<char>, table: Seq<char>) -> CommandView {
    command("ip"@).arg("rule"@).arg("del"@).arg("fwmark"@).arg(mark).arg("table"@).arg(table)
}

pub(crate) fn rule_del(mark: &str, table: &str) -> (r: Command)
    ensures
        r@ == rule_del_cmd(mark@, table@),
{
    Command::new("ip").arg("rule").arg("del").arg("fwmark").arg(mark).arg("table").arg(table)
}

/// Marks the packets to a public address.
pub open spec fn mark_rule_cmd(table: Seq<char>, uplink: Seq<char>, addr: Seq<char>, mark: Seq<char>, comment: Seq<char>) -> CommandView {
    command("nft"@).arg("add"@).arg("rule"@).arg("ip"@).arg(table).arg("prerouting"@)
        .arg("iifname"@).arg(uplink).arg("ip"@).arg("daddr"@).arg(addr).arg("meta"@)
        .arg("mark"@).arg("set"@).arg(mark).arg("comment"@).arg(comment)
}

pub(crate) fn mark_rule(table: &str, uplink: &str, addr: &str, mark: &str, comment: &str) -> (r: Command)
    ensures
        r@ == mark_rule_cmd(table@, uplink@, addr@, mark@, comment@),
{
    Command::new("nft").arg("add").arg("rule").arg("ip").arg(table).arg("prerouting")
        .arg("iifname").arg(uplink).arg("ip").arg("daddr").arg(addr).arg("meta").arg("mark")
        .arg("set").arg(mark).arg("comment").arg(comment)
}

/// Hands packets to a public address to an endpoint.
pub open spec fn dnat_rule_cmd(ns: Seq<char>, table: Seq<char>, public: Seq<char>, private: Seq<char>, comment: Seq<char>) -> CommandView {
    command("ip"@).arg("netns"@).arg("exec"@).arg(ns).arg("nft"@).arg("add"@).arg("rule"@)
        .arg("ip"@).arg(table).arg("prerouting"@).arg("ip"@).arg("daddr"@).arg(public)
        .arg("dnat"@).arg("to"@).arg(private).arg("comment"@).arg(comment)
}

pub(crate) fn dnat_rule(ns: &str, table: &str, public: &str, private: &str, comment: &str) -> (r: Command)
    ensures
        r@ == dnat_rule_cmd(ns@, table@, public@, private@, comment@),
{
    Command::new("ip").arg("netns").arg("exec").arg(ns).arg("nft").arg("add").arg("rule")
        .arg("ip").arg(table).arg("prerouting").arg("ip").arg("daddr").arg(public).arg("dnat")
        .arg("to").arg(private).arg("comment").arg(comment)
}

/// Sends the packets of an endpoint from its public address.
pub open spec fn snat_rule_cmd(ns: Seq<char>, table: Seq<char>, dev: Seq<char>, private: Seq<char>, public: Seq<char>, comment: Seq<char>) -> CommandView {
    command("ip"@).arg("netns"@).arg("exec"@).arg(ns).arg("nft"@).arg("add"@).arg("rule"@)
        .arg("ip"@).arg(table).arg("postrouting"@).arg("oifname"@).arg(dev).arg("ip"@)
        .arg("saddr"@).arg(private).arg("snat"@).arg("to"@).arg(public).arg("comment"@)
        .arg(comment)
}

pub(crate) fn snat_rule(ns: &str, table: &str, dev: &str, private: &str, public: &str, comment: &str) -> (r: Command)
    ensures
        r@ == snat_rule_cmd(ns@, table@, dev@, private@, public@, comment@),
{
    Command::new("ip").arg("netns").arg("exec").arg(ns).arg("nft").arg("add").arg("rule")
        .arg("ip").arg(table).arg("postrouting").arg("oifname").arg(dev).arg("ip").arg("saddr")
        .arg(private).arg("snat").arg("to").arg(public).arg("comment").arg(comment)
}

/// Forgets the routes of a namespace.
pub open spec fn ns_route_flush_cmd(ns: Seq<char>) -> CommandView {
    command("ip"@).arg("netns"@).arg("exec"@).arg(ns).arg("ip"@).arg("route"@).arg("flush"@)
        .arg("table"@).arg("main"@)
}

pub(crate) fn ns_route_flush(ns: &str) -> (r: Command)
    ensures
        r@ == ns_route_flush_cmd(ns@),
{
    Command::new("ip").arg("netns").arg("exec").arg(ns).arg("ip").arg("route").arg("flush")
        .arg("table").arg("main")
}

/// Makes a private key.
pub open spec fn genkey_cmd() -> CommandView {
    command("wg"@).arg("genkey"@)
}

pub(crate) fn genkey() -> (r: Command)
    ensures
        r@ == genkey_cmd(),
{
    Command::new("wg").arg("genkey")
}

} // verus!
