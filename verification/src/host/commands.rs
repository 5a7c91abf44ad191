//! The commands that the host network runs, beside those of the fabric.
use crate::session::{command, Command, CommandView};
use vstd::prelude::*;

verus! {

/// Describes all links.
pub open spec fn links_detail_cmd() -> CommandView {
    command("ip"@).arg("-d"@).arg("link"@).arg("show"@)
}

pub(crate) fn links_detail() -> (r: Command)
    ensures
        r@ == links_detail_cmd(),
{
    Command::new("ip").arg("-d").arg("link").arg("show")
}

/// Shows a link on one line.
pub open spec fn link_line_cmd(dev: Seq<char>) -> CommandView {
    command("ip"@).arg("-o"@).arg("link"@).arg("show"@).arg("dev"@).arg(dev)
}

pub(crate) fn link_line(dev: &str) -> (r: Command)
    ensures
        r@ == link_line_cmd(dev@),
{
    Command::new("ip").arg("-o").arg("link").arg("show").arg("dev").arg(dev)
}

/// Makes a bridge.
pub open spec fn named_bridge_add_cmd(dev: Seq<char>) -> CommandView {
    command("ip"@).arg("link"@).arg("add"@).arg("name"@).arg(dev).arg("type"@).arg("bridge"@)
}

pub(crate) fn named_bridge_add(dev: &str) -> (r: Command)
    ensures
        r@ == named_bridge_add_cmd(dev@),
{
    Command::new("ip").arg("link").arg("add").arg("name").arg(dev).arg("type").arg("bridge")
}

/// Stops a device.
pub open spec fn link_down_cmd(dev: Seq<char>) -> CommandView {
    command("ip"@).arg("link"@).arg("set"@).arg("dev"@).arg(dev).arg("down"@)
}

pub(crate) fn link_down(dev: &str) -> (r: Command)
    ensures
        r@ == link_down_cmd(dev@),
{
    Command::new("ip").arg("link").arg("set").arg("dev").arg(dev).arg("down")
}

/// Renames a device.
pub open spec fn link_rename_cmd(dev: Seq<char>, name: Seq<char>) -> CommandView {
    command("ip"@).arg("link"@).arg("set"@).arg("dev"@).arg(dev).arg("name"@).arg(name)
}

pub(crate) fn link_rename(dev: &str, name: &str) -> (r: Command)
    ensures
        r@ == link_rename_cmd(dev@, name@),
{
    Command::new("ip").arg("link").arg("set").arg("dev").arg(dev).arg("name").arg(name)
}

/// Makes a tap device that a user and a group may open.
pub open spec fn tap_add_for_cmd(dev: Seq<char>, user: Seq<char>, group: Seq<char>) -> CommandView {
    command("ip"@).arg("tuntap"@).arg("add"@).arg("dev"@).arg(dev).arg("mode"@).arg("tap"@)
        .arg("user"@).arg(user).arg("group"@).arg(group)
}

pub(crate) fn tap_add_for(dev: &str, user: &str, group: &str) -> (r: Command)
    ensures
        r@ == tap_add_for_cmd(dev@, user@, group@),
{
    Command::new("ip").arg("tuntap").arg("add").arg("dev").arg(dev).arg("mode").arg("tap")
        .arg("user").arg(user).arg("group").arg(group)
}

/// Gives a device an address.
pub open spec fn address_replace_cmd(address: Seq<char>, dev: Seq<char>) -> CommandView {
    command("ip"@).arg("addr"@).arg("replace"@).arg(address).arg("dev"@).arg(dev)
}

pub(crate) fn address_replace(address: &str, dev: &str) -> (r: Command)
    ensures
        r@ == address_replace_cmd(address@, dev@),
{
    Command::new("ip").arg("addr").arg("replace").arg(address).arg("dev").arg(dev)
}

/// Takes an address from a device.
pub open spec fn address_del_cmd(address: Seq<char>, dev: Seq<char>) -> CommandView {
    command("ip"@).arg("addr"@).arg("del"@).arg(address).arg("dev"@).arg(dev)
}

pub(crate) fn address_del(address: &str, dev: &str) -> (r: Command)
    ensures
        r@ == address_del_cmd(address@, dev@),
{
    Command::new("ip").arg("addr").arg("del").arg(address).arg("dev").arg(dev)
}

} // verus!
