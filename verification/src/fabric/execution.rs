//! What the providers of gateways and policies read from the host.
use super::commands::{ns_table_list, ns_table_list_cmd};
use super::config::LinuxFabricError;
use crate::session::{
    command, queried, Command, CommandView, EffectView, Session, Stop, Trace,
};
use crate::text::{
    after_first, after_first_of, chars_of, find_from, occurs_at, rows, split, split_of, text_of,
};
use vstd::prelude::*;

verus! {

/// What stands in a text before the first occurrence of `needle`, or all of it.
pub open spec fn before_first(hay: Seq<char>, needle: Seq<char>) -> Seq<char> {
    match find_from(hay, needle, 0) {
        Some(at) => hay.take(at),
        None => hay,
    }
}

proof fn lemma_found_inside(hay: Seq<char>, needle: Seq<char>, from: int)
    requires
        0 <= from,
    ensures
        find_from(hay, needle, from) matches Some(at) ==> 0 <= at && at + needle.len() <= hay.len(),
    decreases hay.len() + 1 - from,
{
    if from + needle.len() <= hay.len() && !occurs_at(hay, needle, from) {
        lemma_found_inside(hay, needle, from + 1);
    }
}

fn before_first_of(hay: &Vec<char>, needle: &str) -> (r: Vec<char>)
    ensures
        r@ == before_first(hay@, needle@),
{
    let len: usize = match after_first_of(hay, needle) {
        Some(rest) => {
            let n: usize = chars_of(needle).len();
            proof {
                lemma_found_inside(hay@, needle@, 0);
            }
            hay.len() - rest.len() - n
        },
        None => hay.len(),
    };
    let mut out: Vec<char> = Vec::new();
    for i in 0..len
        invariant
            len <= hay.len(),
            out@ == hay@.take(i as int),
    {
        out.push(hay[i]);
        assert(out@ =~= hay@.take(i + 1));
    }
    assert(before_first(hay@, needle@) =~= hay@.take(len as int));
    out
}

/// The first comment in the listing of a table: what is quoted behind the first word that
/// announces one, and before the next.
pub open spec fn marker_in(listing: Seq<char>) -> Option<Seq<char>> {
    match after_first(listing, "comment "@) {
        None => None,
        Some(rest) => {
            let parts = split(before_first(rest, "comment "@), '"');
            if parts.len() > 1 {
                Some(parts[1])
            } else {
                None
            }
        },
    }
}

/// Computes [`marker_in`].
pub fn marker_of(listing: &str) -> (r: Option<String>)
    ensures
        crate::model::view_opt(r) == marker_in(listing@),
{
    match after_first_of(&chars_of(listing), "comment ") {
        None => None,
        Some(rest) => {
            let mut parts = split_of(&before_first_of(&rest, "comment "), '"');
            assert(rows(parts@).len() == parts@.len());
            if parts.len() > 1 {
                assert(rows(parts@)[1] == parts@[1]@);
                Some(text_of(parts.swap_remove(1)))
            } else {
                None
            }
        },
    }
}

/// Reads the comment that marks a gateway's table in a namespace. A table that is not there has
/// none.
pub open spec fn gateway_marker_run(namespace: Seq<char>, table: Seq<char>, t: Trace) -> (
    Trace,
    Result<Option<Seq<char>>, Stop<LinuxFabricError>>,
) {
    (
        t.after(EffectView::Query(ns_table_list_cmd(namespace, table))),
        match queried(t.reply(), LinuxFabricError::Storage) {
            Err(stop) => Err(stop),
            Ok((false, _)) => Ok(None),
            Ok((true, listing)) => Ok(marker_in(listing)),
        },
    )
}

/// Performs [`gateway_marker_run`].
pub fn gateway_marker(namespace: &str, table: &str, session: &mut Session) -> (r: Result<
    Option<String>,
    Stop<LinuxFabricError>,
>)
    ensures
        ({
            let (t, found) = gateway_marker_run(namespace@, table@, old(session)@);
            &&& final(session)@ == t
            &&& found == match r {
                Ok(marker) => Ok(crate::model::view_opt(marker)),
                Err(stop) => Err(stop),
            }
        }),
{
    match session.query(ns_table_list(namespace, table), LinuxFabricError::Storage) {
        Err(stop) => Err(stop),
        Ok((success, listing)) => if success {
            Ok(marker_of(listing.as_str()))
        } else {
            Ok(None)
        },
    }
}

/// A command of the packet filter, in a namespace where one is given.
pub open spec fn filter_cmd(namespace: Option<Seq<char>>) -> CommandView {
    match namespace {
        None => command("nft"@),
        Some(ns) => command("ip"@).arg("netns"@).arg("exec"@).arg(ns).arg("nft"@),
    }
}

/// Computes [`filter_cmd`].
pub fn filter_command(namespace: Option<&str>) -> (r: Command)
    ensures
        r@ == filter_cmd(
            match namespace {
                Some(ns) => Some(ns@),
                None => None,
            },
        ),
{
    match namespace {
        None => Command::new("nft"),
        Some(ns) => Command::new("ip").arg("netns").arg("exec").arg(ns).arg("nft"),
    }
}

} // verus!
