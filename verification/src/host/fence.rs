//! What keeps the manager from touching the links of others.
//!
//! A link is removed only right after the host described it as a tap device or a bridge, and a
//! manager with a record gives a link its lasting name only behind a durable record.
use super::bridge::{
    abandon_run, add_gateway_run, adopt_run, bridge_made, bridge_removed, bridge_rename,
    bridge_setup, bridge_start, cleanup_run, delete_bridge_run, described, ensure_bridge_run,
    ensure_gateway_run, finish_bridge_run, gateway_added, gateway_removed, gateway_text,
    give_up_run, make_bridge_run, ran, ran_all, remove_gateway_run, rollback_bridge_run,
    rollback_provisional_run, setup_run,
};
use super::commands::{
    address_del_cmd, address_replace_cmd, link_down_cmd, link_line_cmd, link_rename_cmd,
    named_bridge_add_cmd, tap_add_for_cmd,
};
use super::config::{digest_mac, tap_name_text, HostNetworkError, ProvisionalNamesView};
use super::links::{has_token, identity, is_bridge, is_owned_tap, is_tap};
use super::manager::{specs_of, update_run, HostView, TAP_ADDRESS_POLL_INTERVAL_MS};
use super::taps::{
    delete_instance_run, delete_tap_run, delete_taps_run, ensure_tap_run, finish_tap_run,
    first_failure, make_tap_cmd, make_tap_run, moment_run, rollback_recorded_run, rollback_tap_run,
    settle_run, stabilize_run, tap_made, tap_removed, tap_setup, wait_run,
};
use super::types::{GatewaySpec, NetworkOwnershipManifestView, TapSpecView};
use crate::fabric::commands::{
    link_address_cmd, link_del_dev_cmd, link_detail_cmd, link_master_cmd, link_show_cmd,
    link_up_cmd, tap_add_cmd,
};
use crate::session::{queried, told_time, CommandView, EffectView, ReplyView, Stop, Trace};
use vstd::prelude::*;

verus! {

/// Whether a command removes a link.
pub open spec fn deletes(c: CommandView) -> bool {
    c.args.len() == 4 && c.args[0] == "link"@ && c.args[1] == "del"@
}

/// Whether a command gives a link another name.
pub open spec fn renames(c: CommandView) -> bool {
    c.args.len() == 6 && c.args[0] == "link"@ && c.args[4] == "name"@
}

/// Whether the effect at `i` is the description of a link that the host gave, and the link is a
/// tap device or a bridge.
pub open spec fn proved_at(t: Trace, i: int, name: Seq<char>) -> bool {
    &&& 0 <= i < t.replies.len()
    &&& t.issued[i] == EffectView::Query(link_detail_cmd(name))
    &&& t.replies[i] matches ReplyView::Printed(true, output) && (is_tap(output) || is_bridge(
        output,
    ))
}

/// Whether a record was made durable at or behind `from` and before `i`.
pub open spec fn saved_between(t: Trace, from: int, i: int) -> bool {
    exists|j: int|
        from <= j < i && j < t.replies.len() && #[trigger] t.issued[j] == EffectView::Save
            && t.replies[j] == ReplyView::Finished(true)
}

/// Whether the effect at `i` respects the fence: the removal of a link comes right behind its
/// description, and, where a record is kept, a renaming comes behind a durable record.
pub open spec fn fenced_at(t: Trace, from: int, kept: bool, i: int) -> bool {
    match t.issued[i] {
        EffectView::Run(c) => {
            &&& deletes(c) ==> i > from && proved_at(t, i - 1, c.args[3])
            &&& kept && renames(c) ==> saved_between(t, from, i)
        },
        _ => true,
    }
}

/// Whether all effects at or behind `from` respect the fence.
pub open spec fn fenced(t: Trace, from: int, kept: bool) -> bool {
    &&& 0 <= from <= t.issued.len()
    &&& forall|i: int| from <= i < t.issued.len() ==> #[trigger] fenced_at(t, from, kept, i)
}

// ---------------------------------------------------------------------------
// Single steps
// ---------------------------------------------------------------------------

/// Whether an effect neither removes nor renames a link.
pub open spec fn harmless(e: EffectView) -> bool {
    match e {
        EffectView::Run(c) => !deletes(c) && !renames(c),
        _ => true,
    }
}

proof fn lemma_words()
    ensures
        "del"@ != "set"@,
        "del"@ != "add"@,
        "addr"@ != "link"@,
        "tuntap"@ != "link"@,
        "name"@ != "address"@,
        "name"@ != "master"@,
        "name"@ != "type"@,
{
    reveal_strlit("del");
    reveal_strlit("set");
    reveal_strlit("add");
    reveal_strlit("addr");
    reveal_strlit("link");
    reveal_strlit("tuntap");
    reveal_strlit("name");
    reveal_strlit("address");
    reveal_strlit("master");
    reveal_strlit("type");
    assert("del"@[0] == 'd' && "set"@[0] == 's' && "add"@[0] == 'a');
    assert("addr"@[0] == 'a' && "link"@[0] == 'l');
    assert("name"@[0] == 'n' && "type"@[0] == 't');
}

proof fn lemma_harmless(a: Seq<char>, b: Seq<char>, c: Seq<char>)
    ensures
        harmless(EffectView::Run(link_up_cmd(a))),
        harmless(EffectView::Run(link_down_cmd(a))),
        harmless(EffectView::Run(link_address_cmd(a, b))),
        harmless(EffectView::Run(link_master_cmd(a, b))),
        harmless(EffectView::Run(named_bridge_add_cmd(a))),
        harmless(EffectView::Run(tap_add_cmd(a))),
        harmless(EffectView::Run(tap_add_for_cmd(a, b, c))),
        harmless(EffectView::Run(address_replace_cmd(a, b))),
        harmless(EffectView::Run(address_del_cmd(a, b))),
        deletes(link_del_dev_cmd(a)),
        link_del_dev_cmd(a).args[3] == a,
        !renames(link_del_dev_cmd(a)),
        !deletes(link_rename_cmd(a, b)),
{
    lemma_words();
}

proof fn lemma_earlier(t: Trace, from: int, kept: bool, e: EffectView)
    requires
        fenced(t, from, kept),
    ensures
        forall|i: int|
            from <= i < t.issued.len() ==> #[trigger] fenced_at(t.after(e), from, kept, i),
{
    let t1 = t.after(e);
    assert forall|i: int| from <= i < t.issued.len() implies #[trigger] fenced_at(
        t1,
        from,
        kept,
        i,
    ) by {
        assert(fenced_at(t, from, kept, i));
        assert(t1.issued[i] == t.issued[i]);
        if i > from {
            assert(t1.issued[i - 1] == t.issued[i - 1]);
        }
        if saved_between(t, from, i) {
            let j = choose|j: int|
                from <= j < i && j < t.replies.len() && #[trigger] t.issued[j] == EffectView::Save
                    && t.replies[j] == ReplyView::Finished(true);
            assert(t1.issued[j] == EffectView::Save);
        }
    }
}

proof fn lemma_harmless_step(t: Trace, from: int, kept: bool, e: EffectView)
    requires
        fenced(t, from, kept),
        harmless(e),
    ensures
        fenced(t.after(e), from, kept),
{
    lemma_earlier(t, from, kept, e);
    assert(t.after(e).issued[t.issued.len() as int] == e);
}

proof fn lemma_delete_step(t: Trace, from: int, kept: bool, name: Seq<char>, output: Seq<char>)
    requires
        fenced(t, from, kept),
        t.reply() == Some(ReplyView::Printed(true, output)),
        is_tap(output) || is_bridge(output),
    ensures
        fenced(
            t.after(EffectView::Query(link_detail_cmd(name))).after(
                EffectView::Run(link_del_dev_cmd(name)),
            ),
            from,
            kept,
        ),
{
    let t1 = t.after(EffectView::Query(link_detail_cmd(name)));
    let e = EffectView::Run(link_del_dev_cmd(name));
    lemma_harmless_step(t, from, kept, EffectView::Query(link_detail_cmd(name)));
    lemma_earlier(t1, from, kept, e);
    lemma_harmless(name, name, name);
    let i = t1.issued.len() as int;
    assert(t1.after(e).issued[i] == e);
    assert(t1.after(e).issued[i - 1] == EffectView::Query(link_detail_cmd(name)));
    assert(proved_at(t1.after(e), i - 1, name));
}

/// Whether a record was made durable at or behind `from`.
pub open spec fn saved_since(t: Trace, from: int) -> bool {
    saved_between(t, from, t.issued.len() as int)
}

proof fn lemma_saved_stays(t: Trace, from: int, e: EffectView)
    requires
        saved_since(t, from),
        0 <= from,
    ensures
        saved_since(t.after(e), from),
        saved_between(t.after(e), from, t.issued.len() as int),
{
    let n = t.issued.len() as int;
    let j = choose|j: int|
        from <= j < n && j < t.replies.len() && #[trigger] t.issued[j] == EffectView::Save
            && t.replies[j] == ReplyView::Finished(true);
    assert(t.after(e).issued[j] == EffectView::Save);
}

proof fn lemma_rename_step(t: Trace, from: int, kept: bool, a: Seq<char>, b: Seq<char>)
    requires
        fenced(t, from, kept),
        kept ==> saved_since(t, from),
    ensures
        fenced(t.after(EffectView::Run(link_rename_cmd(a, b))), from, kept),
        kept ==> saved_since(t.after(EffectView::Run(link_rename_cmd(a, b))), from),
{
    let e = EffectView::Run(link_rename_cmd(a, b));
    lemma_earlier(t, from, kept, e);
    lemma_harmless(a, b, b);
    assert(t.after(e).issued[t.issued.len() as int] == e);
    if kept {
        lemma_saved_stays(t, from, e);
    }
}

proof fn lemma_update(
    h: HostView,
    change: Option<Result<NetworkOwnershipManifestView, HostNetworkError>>,
    t: Trace,
    from: int,
    kept: bool,
)
    requires
        fenced(t, from, kept),
    ensures
        fenced(update_run(h, change, t).1, from, kept),
        change is Some && update_run(h, change, t).2 is Ok ==> saved_since(
            update_run(h, change, t).1,
            from,
        ),
{
    if change matches Some(Ok(_)) {
        lemma_harmless_step(t, from, kept, EffectView::Save);
        let t1 = t.after(EffectView::Save);
        if update_run(h, change, t).2 is Ok {
            let j = t.issued.len() as int;
            assert(t1.issued[j] == EffectView::Save);
            assert(t1.replies[j] == ReplyView::Finished(true));
        }
    }
}

proof fn lemma_harmless_all(t: Trace, cs: Seq<CommandView>, from: int, kept: bool)
    requires
        fenced(t, from, kept),
        forall|i: int| 0 <= i < cs.len() ==> harmless(EffectView::Run(#[trigger] cs[i])),
    ensures
        fenced(ran_all(t, cs).0, from, kept),
    decreases cs.len(),
{
    if cs.len() > 0 {
        let head = cs.drop_last();
        assert forall|i: int| 0 <= i < head.len() implies harmless(
            EffectView::Run(#[trigger] head[i]),
        ) by {
            assert(head[i] == cs[i]);
        }
        lemma_harmless_all(t, head, from, kept);
        let (t1, r1) = ran_all(t, head);
        if r1 is Ok {
            assert(harmless(EffectView::Run(cs[cs.len() - 1])));
            lemma_harmless_step(t1, from, kept, EffectView::Run(cs.last()));
        }
    }
}

// ---------------------------------------------------------------------------
// The bridge
// ---------------------------------------------------------------------------

proof fn lemma_rollback_bridge(h: HostView, e: HostNetworkError, t: Trace, from: int, kept: bool)
    requires
        fenced(t, from, kept),
    ensures
        fenced(rollback_bridge_run(h, e, t).1, from, kept),
{
    let b = h.config.bridge_name;
    let q = EffectView::Query(link_detail_cmd(b));
    lemma_harmless_step(t, from, kept, q);
    if h.bridge() is Some {
        match described(t) {
            Ok(Some(output)) => {
                if is_bridge(output) && h.owns_bridge(output) {
                    lemma_delete_step(t, from, kept, b, output);
                    let t2 = t.after(q).after(EffectView::Run(link_del_dev_cmd(b)));
                    lemma_update(h, bridge_removed(h), t2, from, kept);
                }
            },
            _ => {},
        }
    }
}

proof fn lemma_rollback_provisional(
    h: HostView,
    name: Seq<char>,
    e: HostNetworkError,
    t: Trace,
    from: int,
    kept: bool,
)
    requires
        fenced(t, from, kept),
    ensures
        fenced(rollback_provisional_run(h, name, e, t).0, from, kept),
{
    lemma_harmless_step(t, from, kept, EffectView::Query(link_detail_cmd(name)));
    match described(t) {
        Ok(Some(output)) => {
            if is_bridge(output) {
                lemma_delete_step(t, from, kept, name, output);
            }
        },
        _ => {},
    }
}

proof fn lemma_abandon(
    h: HostView,
    name: Seq<char>,
    stop: Stop<HostNetworkError>,
    t: Trace,
    from: int,
    kept: bool,
)
    requires
        fenced(t, from, kept),
    ensures
        fenced(abandon_run(h, name, stop, t).1, from, kept),
{
    match stop {
        Stop::Pending => {},
        Stop::Failed(e) => lemma_rollback_provisional(h, name, e, t, from, kept),
    }
}

proof fn lemma_adopt(h: HostView, t: Trace, from: int, kept: bool)
    requires
        fenced(t, from, kept),
    ensures
        fenced(adopt_run(h, t).0, from, kept),
{
    let b = h.config.bridge_name;
    lemma_harmless(b, b, b);
    let q = EffectView::Query(link_detail_cmd(b));
    lemma_harmless_step(t, from, kept, q);
    let t1 = t.after(q);
    let up = EffectView::Run(link_up_cmd(b));
    lemma_harmless_step(t1, from, kept, up);
    match h.config.uplink {
        Some(uplink) => lemma_harmless_step(
            t1.after(up),
            from,
            kept,
            EffectView::Query(link_line_cmd(uplink)),
        ),
        None => {},
    }
}

proof fn lemma_finish_bridge(h: HostView, name: Seq<char>, t: Trace, from: int, kept: bool)
    requires
        fenced(t, from, kept),
        kept ==> saved_since(t, from),
    ensures
        fenced(finish_bridge_run(h, name, t).1, from, kept),
{
    let b = h.config.bridge_name;
    lemma_harmless(name, b, b);
    lemma_harmless(b, b, b);
    let cs = bridge_rename(h, name);
    let down = Seq::<CommandView>::empty().push(link_down_cmd(name));
    assert(cs.drop_last() =~= down);
    assert(down.drop_last() =~= Seq::<CommandView>::empty());
    let e = EffectView::Run(link_down_cmd(name));
    lemma_harmless_step(t, from, kept, e);
    if kept {
        lemma_saved_stays(t, from, e);
    }
    assert(ran_all(t, down.drop_last()) == (t, Ok::<(), Stop<HostNetworkError>>(())));
    assert(ran_all(t, down).0 == t.after(e));
    lemma_rename_step(t.after(e), from, kept, name, b);
    let (t1, renamed) = ran_all(t, cs);
    assert(fenced(t1, from, kept));
    match renamed {
        Err(stop) => lemma_abandon(h, name, stop, t1, from, kept),
        Ok(()) => {
            let start = bridge_start(h);
            assert forall|i: int| 0 <= i < start.len() implies harmless(
                EffectView::Run(#[trigger] start[i]),
            ) by {
                match h.config.uplink {
                    Some(uplink) => lemma_harmless(uplink, b, b),
                    None => {},
                }
            }
            lemma_harmless_all(t1, start, from, kept);
            let (t2, started) = ran_all(t1, start);
            match started {
                Err(Stop::Failed(why)) => lemma_rollback_bridge(h, why, t2, from, kept),
                _ => {},
            }
        },
    }
}

proof fn lemma_make_bridge(h: HostView, name: Seq<char>, t: Trace, from: int, kept: bool)
    requires
        fenced(t, from, kept),
        kept ==> h.ownership is Some,
    ensures
        fenced(make_bridge_run(h, name, t).1, from, kept),
{
    let b = h.config.bridge_name;
    lemma_harmless(name, digest_mac(b), b);
    let add = EffectView::Run(named_bridge_add_cmd(name));
    lemma_harmless_step(t, from, kept, add);
    let t1 = t.after(add);
    if ran(t) is Ok {
        lemma_harmless_all(t1, bridge_setup(h, name), from, kept);
        let (t2, set_up) = setup_run(h, name, t1);
        match set_up {
            Err(stop) => lemma_abandon(h, name, stop, t2, from, kept),
            Ok(()) => {
                let q = EffectView::Query(link_detail_cmd(name));
                lemma_harmless_step(t2, from, kept, q);
                let t3 = t2.after(q);
                lemma_abandon(
                    h,
                    name,
                    Stop::Failed(HostNetworkError::ForeignInterface),
                    t3,
                    from,
                    kept,
                );
                match described(t2) {
                    Ok(Some(output)) => match identity(output) {
                        Some(id) => {
                            let (h4, t4, recorded) = update_run(h, bridge_made(h, id), t3);
                            lemma_update(h, bridge_made(h, id), t3, from, kept);
                            match recorded {
                                Err(stop) => lemma_abandon(h4, name, stop, t4, from, kept),
                                Ok(()) => lemma_finish_bridge(h4, name, t4, from, kept),
                            }
                        },
                        None => {},
                    },
                    _ => {},
                }
            },
        }
    }
}

/// Making or taking over the bridge respects the fence.
pub proof fn lemma_ensure_bridge_fenced(
    h: HostView,
    name: Seq<char>,
    t: Trace,
    from: int,
    kept: bool,
)
    requires
        fenced(t, from, kept),
        kept ==> h.ownership is Some,
    ensures
        fenced(ensure_bridge_run(h, name, t).1, from, kept),
{
    let q = EffectView::Query(link_show_cmd(h.config.bridge_name));
    lemma_harmless_step(t, from, kept, q);
    lemma_adopt(h, t.after(q), from, kept);
    lemma_make_bridge(h, name, t.after(q), from, kept);
}

/// Removing the bridge respects the fence.
pub proof fn lemma_delete_bridge_fenced(h: HostView, t: Trace, from: int, kept: bool)
    requires
        fenced(t, from, kept),
    ensures
        fenced(delete_bridge_run(h, t).1, from, kept),
{
    let b = h.config.bridge_name;
    let show = EffectView::Query(link_show_cmd(b));
    lemma_harmless_step(t, from, kept, show);
    let t1 = t.after(show);
    lemma_update(h, bridge_removed(h), t1, from, kept);
    let q = EffectView::Query(link_detail_cmd(b));
    lemma_harmless_step(t1, from, kept, q);
    match queried(t1.reply(), HostNetworkError::CommandFailed) {
        Ok((true, output)) => {
            if is_bridge(output) {
                lemma_delete_step(t1, from, kept, b, output);
                let t3 = t1.after(q).after(EffectView::Run(link_del_dev_cmd(b)));
                lemma_update(h, bridge_removed(h), t3, from, kept);
            }
        },
        _ => {},
    }
}

proof fn lemma_give_up(
    h: HostView,
    made: bool,
    stop: Stop<HostNetworkError>,
    t: Trace,
    from: int,
    kept: bool,
)
    requires
        fenced(t, from, kept),
    ensures
        fenced(give_up_run(h, made, stop, t).1, from, kept),
{
    match stop {
        Stop::Failed(e) => lemma_rollback_bridge(h, e, t, from, kept),
        Stop::Pending => {},
    }
}

proof fn lemma_add_gateway(
    h: HostView,
    g: GatewaySpec,
    made: bool,
    t: Trace,
    from: int,
    kept: bool,
)
    requires
        fenced(t, from, kept),
    ensures
        fenced(add_gateway_run(h, g, made, t).1, from, kept),
{
    let b = h.config.bridge_name;
    let address = gateway_text(g);
    lemma_harmless(address, b, b);
    let e = EffectView::Run(address_replace_cmd(address, b));
    lemma_harmless_step(t, from, kept, e);
    let t1 = t.after(e);
    match ran(t) {
        Err(stop) => lemma_give_up(h, made, stop, t1, from, kept),
        Ok(()) => {
            lemma_update(h, gateway_added(h, g), t1, from, kept);
            let (h2, t2, recorded) = update_run(h, gateway_added(h, g), t1);
            match recorded {
                Err(stop) => {
                    let d = EffectView::Run(address_del_cmd(address, b));
                    lemma_harmless_step(t2, from, kept, d);
                    lemma_give_up(h2, made, stop, t2.after(d), from, kept);
                },
                Ok(()) => {},
            }
        },
    }
}

/// Adding the gateway respects the fence.
pub proof fn lemma_ensure_gateway_fenced(
    h: HostView,
    name: Seq<char>,
    g: GatewaySpec,
    t: Trace,
    from: int,
    kept: bool,
)
    requires
        fenced(t, from, kept),
        kept ==> h.ownership is Some,
    ensures
        fenced(ensure_gateway_run(h, name, g, t).1, from, kept),
{
    lemma_ensure_bridge_fenced(h, name, t, from, kept);
    let (h1, t1, made) = ensure_bridge_run(h, name, t);
    match made {
        Ok(true) => lemma_add_gateway(h1, g, true, t1, from, kept),
        Ok(false) => {
            let q = EffectView::Query(link_detail_cmd(h1.config.bridge_name));
            lemma_harmless_step(t1, from, kept, q);
            lemma_add_gateway(h1, g, false, t1.after(q), from, kept);
        },
        Err(_) => {},
    }
}

/// Taking the gateway away respects the fence.
pub proof fn lemma_remove_gateway_fenced(
    h: HostView,
    g: GatewaySpec,
    t: Trace,
    from: int,
    kept: bool,
)
    requires
        fenced(t, from, kept),
    ensures
        fenced(remove_gateway_run(h, g, t).1, from, kept),
{
    let b = h.config.bridge_name;
    let q = EffectView::Query(link_detail_cmd(b));
    lemma_harmless_step(t, from, kept, q);
    lemma_harmless(gateway_text(g), b, b);
    let d = EffectView::Run(address_del_cmd(gateway_text(g), b));
    lemma_harmless_step(t.after(q), from, kept, d);
    lemma_update(h, gateway_removed(h), t.after(q).after(d), from, kept);
}

/// Cleaning up respects the fence.
pub proof fn lemma_cleanup_fenced(h: HostView, t: Trace, from: int, kept: bool)
    requires
        fenced(t, from, kept),
    ensures
        fenced(cleanup_run(h, t).1, from, kept),
{
    let (h1, t1, removed) = match h.gateway() {
        Some(g) => remove_gateway_run(h, g, t),
        None => (h, t, Ok(())),
    };
    match h.gateway() {
        Some(g) => lemma_remove_gateway_fenced(h, g, t, from, kept),
        None => {},
    }
    lemma_delete_bridge_fenced(h1, t1, from, kept);
}

// ---------------------------------------------------------------------------
// Tap devices
// ---------------------------------------------------------------------------

proof fn lemma_rollback_tap(
    h: HostView,
    name: Seq<char>,
    mac: Seq<char>,
    made: bool,
    stop: Stop<HostNetworkError>,
    t: Trace,
    from: int,
    kept: bool,
)
    requires
        fenced(t, from, kept),
    ensures
        fenced(rollback_tap_run(h, name, mac, made, stop, t).1, from, kept),
{
    let q = EffectView::Query(link_detail_cmd(name));
    lemma_harmless_step(t, from, kept, q);
    match described(t) {
        Ok(Some(output)) => {
            if is_owned_tap(output, mac, h.config.bridge_name) {
                lemma_delete_step(t, from, kept, name, output);
                let t2 = t.after(q).after(EffectView::Run(link_del_dev_cmd(name)));
                lemma_give_up(h, made, stop, t2, from, kept);
            }
        },
        _ => {},
    }
}

proof fn lemma_rollback_recorded(
    h: HostView,
    live: Seq<char>,
    name: Seq<char>,
    spec: TapSpecView,
    made: bool,
    stop: Stop<HostNetworkError>,
    t: Trace,
    from: int,
    kept: bool,
)
    requires
        fenced(t, from, kept),
    ensures
        fenced(rollback_recorded_run(h, live, name, spec, made, stop, t).1, from, kept),
{
    lemma_rollback_tap(h, live, spec.mac, made, stop, t, from, kept);
    let (h1, t1, why) = rollback_tap_run(h, live, spec.mac, made, stop, t);
    lemma_update(h1, tap_removed(h1, name, spec), t1, from, kept);
}

proof fn lemma_stabilize(
    window: u64,
    name: Seq<char>,
    mac: Seq<char>,
    started: u64,
    stable: Option<u64>,
    t: Trace,
    from: int,
    kept: bool,
)
    requires
        fenced(t, from, kept),
    ensures
        fenced(stabilize_run(window, name, mac, started, stable, t).0, from, kept),
    decreases t.replies.len() - t.issued.len(),
{
    let q = EffectView::Query(link_detail_cmd(name));
    lemma_harmless_step(t, from, kept, q);
    let t1 = t.after(q);
    lemma_harmless(name, mac, mac);
    let set = EffectView::Run(link_address_cmd(name, mac));
    lemma_harmless_step(t1, from, kept, set);
    lemma_harmless_step(t1, from, kept, EffectView::Clock);
    let t2 = moment_run(stable, t1).0;
    lemma_harmless_step(t2, from, kept, EffectView::Clock);
    match queried(t.reply(), HostNetworkError::CommandFailed) {
        Ok((true, output)) => {
            if has_token(output, "link/ether"@, mac) {
                match (
                    moment_run(stable, t1).1,
                    told_time(t2.reply(), HostNetworkError::CommandFailed),
                ) {
                    (Ok(moment), Ok(_)) => lemma_wait(
                        window,
                        name,
                        mac,
                        started,
                        Some(moment),
                        t2.after(EffectView::Clock),
                        from,
                        kept,
                    ),
                    _ => {},
                }
            } else if ran(t1) is Ok {
                lemma_wait(window, name, mac, started, None, t1.after(set), from, kept);
            }
        },
        _ => {},
    }
}

proof fn lemma_wait(
    window: u64,
    name: Seq<char>,
    mac: Seq<char>,
    started: u64,
    stable: Option<u64>,
    t: Trace,
    from: int,
    kept: bool,
)
    requires
        fenced(t, from, kept),
    ensures
        fenced(wait_run(window, name, mac, started, stable, t).0, from, kept),
    decreases t.replies.len() - t.issued.len(),
{
    let w = EffectView::Wait(TAP_ADDRESS_POLL_INTERVAL_MS);
    let t1 = t.after(EffectView::Clock);
    lemma_harmless_step(t, from, kept, EffectView::Clock);
    lemma_harmless_step(t1, from, kept, w);
    if told_time(t.reply(), HostNetworkError::CommandFailed) is Ok && t1.reply() is Some {
        lemma_stabilize(window, name, mac, started, stable, t1.after(w), from, kept);
    }
}

proof fn lemma_finish_tap(
    h: HostView,
    provisional: Seq<char>,
    name: Seq<char>,
    spec: TapSpecView,
    made: bool,
    t: Trace,
    from: int,
    kept: bool,
)
    requires
        fenced(t, from, kept),
        kept ==> saved_since(t, from),
    ensures
        fenced(finish_tap_run(h, provisional, name, spec, made, t).1, from, kept),
{
    lemma_rename_step(t, from, kept, provisional, name);
    let t1 = t.after(EffectView::Run(link_rename_cmd(provisional, name)));
    match ran(t) {
        Err(stop) => lemma_rollback_recorded(
            h,
            provisional,
            name,
            spec,
            made,
            stop,
            t1,
            from,
            kept,
        ),
        Ok(()) => {
            lemma_harmless(name, name, name);
            let up = EffectView::Run(link_up_cmd(name));
            lemma_harmless_step(t1, from, kept, up);
            match ran(t1) {
                Err(stop) => lemma_rollback_recorded(
                    h,
                    name,
                    name,
                    spec,
                    made,
                    stop,
                    t1.after(up),
                    from,
                    kept,
                ),
                Ok(()) => {},
            }
        },
    }
}

proof fn lemma_make_tap(
    h: HostView,
    provisional: Seq<char>,
    name: Seq<char>,
    spec: TapSpecView,
    made: bool,
    t: Trace,
    from: int,
    kept: bool,
)
    requires
        fenced(t, from, kept),
        kept ==> h.ownership is Some,
    ensures
        fenced(make_tap_run(h, provisional, name, spec, made, t).1, from, kept),
{
    lemma_harmless(provisional, spec.mac, spec.mac);
    lemma_harmless(provisional, h.config.bridge_name, spec.mac);
    match h.tap_access {
        Some(a) => lemma_harmless(provisional, a.user, a.group),
        None => {},
    }
    let add = EffectView::Run(make_tap_cmd(h.tap_access, provisional));
    lemma_harmless_step(t, from, kept, add);
    let t1 = t.after(add);
    match ran(t) {
        Err(stop) => lemma_give_up(h, made, stop, t1, from, kept),
        Ok(()) => {
            let cs = tap_setup(h, provisional, spec.mac);
            lemma_harmless_all(t1, cs, from, kept);
            let (t2, set_up) = ran_all(t1, cs);
            match set_up {
                Err(stop) => lemma_rollback_tap(
                    h,
                    provisional,
                    spec.mac,
                    made,
                    stop,
                    t2,
                    from,
                    kept,
                ),
                Ok(()) => {
                    lemma_harmless_step(t2, from, kept, EffectView::Clock);
                    match told_time(t2.reply(), HostNetworkError::CommandFailed) {
                        Ok(started) => lemma_stabilize(
                            h.settle_window_ms,
                            provisional,
                            spec.mac,
                            started,
                            None,
                            t2.after(EffectView::Clock),
                            from,
                            kept,
                        ),
                        Err(_) => {},
                    }
                    let (t3, settled) = settle_run(h.settle_window_ms, provisional, spec.mac, t2);
                    match settled {
                        Err(stop) => lemma_rollback_tap(
                            h,
                            provisional,
                            spec.mac,
                            made,
                            stop,
                            t3,
                            from,
                            kept,
                        ),
                        Ok(()) => {
                            lemma_update(h, tap_made(h, name, spec), t3, from, kept);
                            let (h4, t4, recorded) = update_run(h, tap_made(h, name, spec), t3);
                            match recorded {
                                Err(stop) => lemma_rollback_tap(
                                    h4,
                                    provisional,
                                    spec.mac,
                                    made,
                                    stop,
                                    t4,
                                    from,
                                    kept,
                                ),
                                Ok(()) => lemma_finish_tap(
                                    h4,
                                    provisional,
                                    name,
                                    spec,
                                    made,
                                    t4,
                                    from,
                                    kept,
                                ),
                            }
                        },
                    }
                },
            }
        },
    }
}

/// A bridge operation keeps a record where there is one.
proof fn lemma_ensure_bridge_keeps(h: HostView, name: Seq<char>, t: Trace)
    ensures
        h.ownership is Some ==> ensure_bridge_run(h, name, t).0.ownership is Some,
        ensure_bridge_run(h, name, t).0.config == h.config,
{
}

/// Making or accepting a tap device respects the fence.
pub proof fn lemma_ensure_tap_fenced(
    h: HostView,
    names: ProvisionalNamesView,
    spec: TapSpecView,
    t: Trace,
    from: int,
    kept: bool,
)
    requires
        fenced(t, from, kept),
        kept ==> h.ownership is Some,
    ensures
        fenced(ensure_tap_run(h, names, spec, t).1, from, kept),
{
    lemma_ensure_bridge_fenced(h, names.bridge, t, from, kept);
    lemma_ensure_bridge_keeps(h, names.bridge, t);
    let (h1, t1, bridge) = ensure_bridge_run(h, names.bridge, t);
    match bridge {
        Ok(made) => {
            let name = tap_name_text(spec.port_id);
            let show = EffectView::Query(link_show_cmd(name));
            lemma_harmless_step(t1, from, kept, show);
            let t2 = t1.after(show);
            let q = EffectView::Query(link_detail_cmd(name));
            lemma_harmless_step(t2, from, kept, q);
            lemma_give_up(
                h1,
                made,
                Stop::Failed(HostNetworkError::ForeignInterface),
                t2.after(q),
                from,
                kept,
            );
            lemma_make_tap(h1, names.tap, name, spec, made, t2, from, kept);
        },
        Err(_) => {},
    }
}

/// Removing a tap device respects the fence.
pub proof fn lemma_delete_tap_fenced(h: HostView, spec: TapSpecView, t: Trace, from: int, kept: bool)
    requires
        fenced(t, from, kept),
    ensures
        fenced(delete_tap_run(h, spec, t).1, from, kept),
{
    let name = tap_name_text(spec.port_id);
    let show = EffectView::Query(link_show_cmd(name));
    lemma_harmless_step(t, from, kept, show);
    let t1 = t.after(show);
    lemma_update(h, tap_removed(h, name, spec), t1, from, kept);
    let q = EffectView::Query(link_detail_cmd(name));
    lemma_harmless_step(t1, from, kept, q);
    match queried(t1.reply(), HostNetworkError::CommandFailed) {
        Ok((true, output)) => {
            if is_owned_tap(output, spec.mac, h.config.bridge_name) {
                lemma_delete_step(t1, from, kept, name, output);
                let t3 = t1.after(q).after(EffectView::Run(link_del_dev_cmd(name)));
                lemma_update(h, tap_removed(h, name, spec), t3, from, kept);
            }
        },
        _ => {},
    }
}

proof fn lemma_delete_taps(
    h: HostView,
    specs: Seq<TapSpecView>,
    i: int,
    failure: Option<HostNetworkError>,
    t: Trace,
    from: int,
    kept: bool,
)
    requires
        fenced(t, from, kept),
    ensures
        fenced(delete_taps_run(h, specs, i, failure, t).1, from, kept),
    decreases specs.len() - i,
{
    if 0 <= i < specs.len() {
        lemma_delete_tap_fenced(h, specs[i], t, from, kept);
        let (h1, t1, deleted) = delete_tap_run(h, specs[i], t);
        match deleted {
            Err(Stop::Failed(e)) => lemma_delete_taps(
                h1,
                specs,
                i + 1,
                first_failure(failure, e),
                t1,
                from,
                kept,
            ),
            Ok(()) => lemma_delete_taps(h1, specs, i + 1, failure, t1, from, kept),
            _ => {},
        }
    }
}

/// Removing the tap devices of an instance respects the fence.
pub proof fn lemma_delete_instance_fenced(
    h: HostView,
    instance_id: Seq<char>,
    t: Trace,
    from: int,
    kept: bool,
)
    requires
        fenced(t, from, kept),
    ensures
        fenced(delete_instance_run(h, instance_id, t).1, from, kept),
{
    lemma_delete_taps(h, specs_of(h.taps(), instance_id), 0, None, t, from, kept);
}

} // verus!
