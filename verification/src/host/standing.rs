//! What stands on a host once a request of the manager has succeeded: what was carried out for the
//! bridge, its gateway and the tap devices.
use super::bridge::{
    adopt_run, bridge_made, bridge_removed, bridge_rename, bridge_setup, bridge_start,
    delete_bridge_run, described, ensure_bridge_run, ensure_gateway_run, finish_bridge_run,
    gateway_added, gateway_removed, make_bridge_run, ran_all, remove_gateway_run, there,
};
use super::commands::{
    address_del_cmd, address_replace_cmd, link_line_cmd, link_rename_cmd, named_bridge_add_cmd,
};
use super::config::{digest_mac, tap_name_text, HostNetworkError, ProvisionalNamesView};
use super::links::{is_attached, is_bridge, is_owned_tap};
use super::manager::{update_run, HostView, TAP_ADDRESS_POLL_INTERVAL_MS};
use super::taps::{
    delete_tap_run, ensure_tap_run, make_tap_cmd, make_tap_run, moment_run, settle_run,
    stabilize_run, tap_made, tap_removed, tap_setup, wait_run,
};
use super::types::{GatewaySpec, NetworkOwnershipManifestView, TapAccessView, TapSpecView};
use crate::fabric::commands::{link_address_cmd, link_del_dev_cmd, link_detail_cmd, link_show_cmd, link_up_cmd};
use crate::fabric::course::lemma_and_then;
use crate::ipv4::ipv4_text;
use crate::reading::{
    carried_out, lemma_done, lemma_earlier, lemma_extends_self, lemma_later, lemma_one_carried_out,
    lemma_told, told,
};
use crate::render::decimal;
use crate::session::{
    extends, lemma_extends_after, lemma_extends_transitive, lemma_run_all_extends, queried,
    CommandView, EffectView, Stop, Trace,
};
use vstd::prelude::*;

verus! {

proof fn lemma_ran(t: Trace, t1: Trace, c: CommandView, v: Trace, args: Seq<Seq<char>>)
    requires
        extends(t, t1),
        super::bridge::ran(t1) is Ok,
        extends(t1.after(EffectView::Run(c)), v),
        c.args =~= args,
    ensures
        carried_out(t, v, c.program, args),
{
    let failed = HostNetworkError::CommandFailed;
    lemma_one_carried_out(t1, c, failed, failed);
    lemma_later(t1, t1.after(EffectView::Run(c)), v, c.program, args);
    lemma_earlier(t, t1, v, c.program, args);
}

proof fn lemma_runs_on(t: Trace, t1: Trace, cs: Seq<CommandView>)
    requires
        extends(t, t1),
    ensures
        extends(t, ran_all(t1, cs).0),
        extends(t1, ran_all(t1, cs).0),
{
    let failed = HostNetworkError::CommandFailed;
    lemma_run_all_extends(t1, cs, failed, failed);
    lemma_extends_transitive(t, t1, ran_all(t1, cs).0);
}

proof fn lemma_saved(
    t: Trace,
    t1: Trace,
    h: HostView,
    change: Option<Result<NetworkOwnershipManifestView, HostNetworkError>>,
)
    requires
        extends(t, t1),
    ensures
        extends(t, update_run(h, change, t1).1),
        extends(t1, update_run(h, change, t1).1),
        update_run(h, change, t1).0.config == h.config,
{
    lemma_extends_self(t1);
    lemma_and_then(t, t1, EffectView::Save);
    lemma_and_then(t1, t1, EffectView::Save);
}

// ---------------------------------------------------------------------------
// The bridge
// ---------------------------------------------------------------------------

/// Whether a bridge was made under a provisional name, set up, renamed and started, and the uplink
/// put on it.
pub open spec fn bridge_is_made(
    t: Trace,
    u: Trace,
    provisional: Seq<char>,
    name: Seq<char>,
    uplink: Option<Seq<char>>,
    mac: Option<Seq<char>>,
) -> bool {
    &&& carried_out(
        t,
        u,
        "ip"@,
        seq!["link"@, "add"@, "name"@, provisional, "type"@, "bridge"@],
    )
    &&& mac matches Some(m) ==> carried_out(
        t,
        u,
        "ip"@,
        seq!["link"@, "set"@, "dev"@, provisional, "address"@, m],
    )
    &&& carried_out(t, u, "ip"@, seq!["link"@, "set"@, "dev"@, provisional, "name"@, name])
    &&& carried_out(t, u, "ip"@, seq!["link"@, "set"@, "dev"@, name, "up"@])
    &&& uplink matches Some(dev) ==> carried_out(
        t,
        u,
        "ip"@,
        seq!["link"@, "set"@, "dev"@, dev, "master"@, name],
    )
}

/// Whether a bridge was found that is one, was started, and has the uplink.
pub open spec fn bridge_is_adopted(
    t: Trace,
    u: Trace,
    name: Seq<char>,
    uplink: Option<Seq<char>>,
) -> bool {
    &&& exists|text: Seq<char>|
        #![trigger is_bridge(text)]
        told(t, u, "ip"@, seq!["-d"@, "link"@, "show"@, "dev"@, name], true, text) && is_bridge(
            text,
        )
    &&& carried_out(t, u, "ip"@, seq!["link"@, "set"@, "dev"@, name, "up"@])
    &&& uplink matches Some(dev) ==> exists|line: Seq<char>|
        #![trigger is_attached(line, name)]
        told(t, u, "ip"@, seq!["-o"@, "link"@, "show"@, "dev"@, dev], true, line) && is_attached(
            line,
            name,
        )
}

proof fn lemma_finished(h: HostView, name: Seq<char>, t: Trace, t1: Trace, v: Trace)
    requires
        extends(t, t1),
        finish_bridge_run(h, name, t1).2 == Ok::<bool, Stop<HostNetworkError>>(true),
        finish_bridge_run(h, name, t1).1 == v,
    ensures
        carried_out(
            t,
            v,
            "ip"@,
            seq!["link"@, "set"@, "dev"@, name, "name"@, h.config.bridge_name],
        ),
        carried_out(t, v, "ip"@, seq!["link"@, "set"@, "dev"@, h.config.bridge_name, "up"@]),
        h.config.uplink matches Some(dev) ==> carried_out(
            t,
            v,
            "ip"@,
            seq!["link"@, "set"@, "dev"@, dev, "master"@, h.config.bridge_name],
        ),
        extends(t1, v),
        finish_bridge_run(h, name, t1).0 == h,
{
    let failed = HostNetworkError::CommandFailed;
    let a = bridge_rename(h, name);
    let b = bridge_start(h);
    let t2 = ran_all(t1, a).0;
    lemma_runs_on(t, t1, a);
    lemma_runs_on(t, t2, b);
    lemma_runs_on(t1, t2, b);
    lemma_extends_self(v);
    lemma_done(
        t,
        t1,
        a,
        failed,
        failed,
        v,
        1,
        seq!["link"@, "set"@, "dev"@, name, "name"@, h.config.bridge_name],
    );
    lemma_done(
        t,
        t2,
        b,
        failed,
        failed,
        v,
        0,
        seq!["link"@, "set"@, "dev"@, h.config.bridge_name, "up"@],
    );
    if h.config.uplink is Some {
        lemma_done(
            t,
            t2,
            b,
            failed,
            failed,
            v,
            1,
            seq![
                "link"@,
                "set"@,
                "dev"@,
                h.config.uplink->Some_0,
                "master"@,
                h.config.bridge_name,
            ],
        );
    }
}

proof fn lemma_made_bridge(h: HostView, name: Seq<char>, t: Trace, t1: Trace, v: Trace)
    requires
        extends(t, t1),
        make_bridge_run(h, name, t1).2 == Ok::<bool, Stop<HostNetworkError>>(true),
        make_bridge_run(h, name, t1).1 == v,
    ensures
        bridge_is_made(
            t,
            v,
            name,
            h.config.bridge_name,
            h.config.uplink,
            if h.set_stable_bridge_mac {
                Some(digest_mac(h.config.bridge_name))
            } else {
                None
            },
        ),
        extends(t1, v),
        make_bridge_run(h, name, t1).0.config == h.config,
{
    let failed = HostNetworkError::CommandFailed;
    let c = named_bridge_add_cmd(name);
    let t2 = t1.after(EffectView::Run(c));
    lemma_and_then(t, t1, EffectView::Run(c));
    lemma_extends_after(t1, EffectView::Run(c));
    let cs = bridge_setup(h, name);
    let t3 = ran_all(t2, cs).0;
    lemma_runs_on(t, t2, cs);
    lemma_runs_on(t1, t2, cs);
    let q = EffectView::Query(link_detail_cmd(name));
    let t4 = t3.after(q);
    lemma_and_then(t, t3, q);
    lemma_and_then(t1, t3, q);
    lemma_and_then(t2, t3, q);
    lemma_extends_after(t3, q);
    let id = super::links::identity(described(t3)->Ok_0->Some_0)->Some_0;
    let change = bridge_made(h, id);
    lemma_saved(t, t4, h, change);
    lemma_saved(t1, t4, h, change);
    lemma_saved(t2, t4, h, change);
    lemma_saved(t3, t4, h, change);
    let (h5, t5, r5) = update_run(h, change, t4);
    lemma_finished(h5, name, t, t5, v);
    lemma_extends_transitive(t1, t5, v);
    lemma_extends_transitive(t2, t5, v);
    lemma_extends_transitive(t3, t5, v);
    lemma_ran(
        t,
        t1,
        c,
        v,
        seq!["link"@, "add"@, "name"@, name, "type"@, "bridge"@],
    );
    if h.set_stable_bridge_mac {
        lemma_done(
            t,
            t2,
            cs,
            failed,
            failed,
            v,
            0,
            seq![
                "link"@,
                "set"@,
                "dev"@,
                name,
                "address"@,
                digest_mac(h.config.bridge_name),
            ],
        );
    }
}

proof fn lemma_adopted(h: HostView, t: Trace, t1: Trace, v: Trace)
    requires
        extends(t, t1),
        adopt_run(h, t1) == (v, Ok::<bool, Stop<HostNetworkError>>(false)),
    ensures
        bridge_is_adopted(t, v, h.config.bridge_name, h.config.uplink),
        extends(t1, v),
{
    let failed = HostNetworkError::CommandFailed;
    let name = h.config.bridge_name;
    let c = link_detail_cmd(name);
    let d = link_up_cmd(name);
    let t2 = t1.after(EffectView::Query(c));
    let t3 = t2.after(EffectView::Run(d));
    lemma_and_then(t, t1, EffectView::Query(c));
    lemma_and_then(t, t2, EffectView::Run(d));
    lemma_extends_after(t1, EffectView::Query(c));
    lemma_extends_after(t2, EffectView::Run(d));
    lemma_and_then(t1, t2, EffectView::Run(d));
    lemma_extends_self(t3);
    let (found, text) = queried(t1.reply(), failed)->Ok_0;
    let asked = seq!["-d"@, "link"@, "show"@, "dev"@, name];
    if h.config.uplink is Some {
        let dev = h.config.uplink->Some_0;
        let e = link_line_cmd(dev);
        lemma_extends_after(t3, EffectView::Query(e));
        lemma_and_then(t1, t3, EffectView::Query(e));
        lemma_and_then(t2, t3, EffectView::Query(e));
        lemma_extends_self(v);
        let (found1, line) = queried(t3.reply(), failed)->Ok_0;
        lemma_told(
            t,
            t3,
            e,
            found1,
            line,
            v,
            seq!["-o"@, "link"@, "show"@, "dev"@, dev],
        );
        assert(is_attached(line, name));
    }
    lemma_told(t, t1, c, found, text, v, asked);
    assert(is_bridge(text));
    lemma_ran(t, t2, d, v, seq!["link"@, "set"@, "dev"@, name, "up"@]);
}

/// The bridge stands once it is ensured: where it was made, it was made with its name, started, and
/// the uplink put on it; where it was there, it is a bridge, was started and has the uplink.
pub proof fn lemma_bridge_stands(
    h: HostView,
    name: Seq<char>,
    t: Trace,
    h1: HostView,
    u: Trace,
    made: bool,
)
    requires
        ensure_bridge_run(h, name, t) == (h1, u, Ok::<bool, Stop<HostNetworkError>>(made)),
    ensures
        made ==> bridge_is_made(
            t,
            u,
            name,
            h.config.bridge_name,
            h.config.uplink,
            if h.set_stable_bridge_mac {
                Some(digest_mac(h.config.bridge_name))
            } else {
                None
            },
        ),
        !made ==> bridge_is_adopted(t, u, h.config.bridge_name, h.config.uplink),
        extends(t, u),
        h1.config == h.config,
{
    let q = EffectView::Query(link_show_cmd(h.config.bridge_name));
    lemma_extends_after(t, q);
    let t1 = t.after(q);
    match there(t) {
        Ok(true) => {
            lemma_adopted(h, t, t1, u);
        },
        Ok(false) => {
            lemma_made_bridge(h, name, t, t1, u);
        },
        Err(_) => {},
    }
    lemma_extends_transitive(t, t1, u);
}

// ---------------------------------------------------------------------------
// The gateway
// ---------------------------------------------------------------------------

/// The words that add or remove a gateway address.
pub open spec fn gateway_words(op: Seq<char>, g: GatewaySpec, bridge: Seq<char>) -> Seq<
    Seq<char>,
> {
    seq![
        "addr"@,
        op,
        ipv4_text(g.address) + "/"@ + decimal(g.prefix_len as nat),
        "dev"@,
        bridge,
    ]
}

/// A gateway that was ensured has its address on the bridge.
pub proof fn lemma_gateway_stands(
    h: HostView,
    name: Seq<char>,
    g: GatewaySpec,
    t: Trace,
    h1: HostView,
    u: Trace,
)
    requires
        ensure_gateway_run(h, name, g, t) == (h1, u, Ok::<(), Stop<HostNetworkError>>(())),
    ensures
        g.prefix_len <= 30,
        carried_out(t, u, "ip"@, gateway_words("replace"@, g, h.config.bridge_name)),
{
    let (ha, ta, made) = ensure_bridge_run(h, name, t);
    lemma_bridge_stands(h, name, t, ha, ta, made->Ok_0);
    let q = EffectView::Query(link_detail_cmd(h.config.bridge_name));
    lemma_and_then(t, ta, q);
    let tb = if made->Ok_0 {
        ta
    } else {
        ta.after(q)
    };
    let c = address_replace_cmd(super::bridge::gateway_text(g), h.config.bridge_name);
    lemma_extends_after(tb, EffectView::Run(c));
    let tc = tb.after(EffectView::Run(c));
    lemma_extends_self(tc);
    lemma_saved(tc, tc, ha, gateway_added(ha, g));
    lemma_ran(t, tb, c, u, gateway_words("replace"@, g, h.config.bridge_name));
}

/// A recorded gateway that was removed has its address taken from the bridge, and another one is
/// not removed.
pub proof fn lemma_gateway_is_gone(
    h: HostView,
    g: GatewaySpec,
    t: Trace,
    h1: HostView,
    u: Trace,
)
    requires
        h.gateway() is Some,
        remove_gateway_run(h, g, t) == (h1, u, Ok::<(), Stop<HostNetworkError>>(())),
    ensures
        h.gateway() == Some(g),
        carried_out(t, u, "ip"@, gateway_words("del"@, g, h.config.bridge_name)),
{
    let q = EffectView::Query(link_detail_cmd(h.config.bridge_name));
    lemma_extends_after(t, q);
    let t1 = t.after(q);
    let c = address_del_cmd(super::bridge::gateway_text(g), h.config.bridge_name);
    let t2 = t1.after(EffectView::Run(c));
    lemma_extends_self(t2);
    lemma_saved(t2, t2, h, gateway_removed(h));
    lemma_ran(t, t1, c, u, gateway_words("del"@, g, h.config.bridge_name));
}

/// A bridge that was removed is gone: it was not there, or it was the recorded one and was removed.
pub proof fn lemma_bridge_is_gone(h: HostView, t: Trace, h1: HostView, u: Trace)
    requires
        delete_bridge_run(h, t) == (h1, u, Ok::<(), Stop<HostNetworkError>>(())),
    ensures
        there(t) == Ok::<bool, Stop<HostNetworkError>>(false) || carried_out(
            t,
            u,
            "ip"@,
            seq!["link"@, "del"@, "dev"@, h.config.bridge_name],
        ),
        h.taps().len() == 0,
        h.gateway() is None,
{
    let name = h.config.bridge_name;
    let a = EffectView::Query(link_show_cmd(name));
    let b = EffectView::Query(link_detail_cmd(name));
    let c = link_del_dev_cmd(name);
    let t1 = t.after(a);
    let t2 = t1.after(b);
    let t3 = t2.after(EffectView::Run(c));
    lemma_extends_after(t, a);
    lemma_and_then(t, t1, b);
    lemma_extends_self(t3);
    lemma_saved(t3, t3, h, bridge_removed(h));
    if there(t) == Ok::<bool, Stop<HostNetworkError>>(true) {
        lemma_ran(t, t2, c, u, seq!["link"@, "del"@, "dev"@, name]);
    }
}

// ---------------------------------------------------------------------------
// Tap devices
// ---------------------------------------------------------------------------

/// The words that make a tap device, for a user and a group where they are configured.
pub open spec fn tap_words(access: Option<TapAccessView>, dev: Seq<char>) -> Seq<Seq<char>> {
    let plain = seq!["tuntap"@, "add"@, "dev"@, dev, "mode"@, "tap"@];
    match access {
        None => plain,
        Some(a) => plain + seq!["user"@, a.user, "group"@, a.group],
    }
}

/// Whether a tap device was made under a provisional name, given its hardware address, put on the
/// bridge, renamed and started.
pub open spec fn tap_is_made(
    t: Trace,
    u: Trace,
    access: Option<TapAccessView>,
    provisional: Seq<char>,
    name: Seq<char>,
    mac: Seq<char>,
    bridge: Seq<char>,
) -> bool {
    &&& carried_out(t, u, "ip"@, tap_words(access, provisional))
    &&& carried_out(t, u, "ip"@, seq!["link"@, "set"@, "dev"@, provisional, "address"@, mac])
    &&& carried_out(t, u, "ip"@, seq!["link"@, "set"@, "dev"@, provisional, "master"@, bridge])
    &&& carried_out(t, u, "ip"@, seq!["link"@, "set"@, "dev"@, provisional, "name"@, name])
    &&& carried_out(t, u, "ip"@, seq!["link"@, "set"@, "dev"@, name, "up"@])
}

/// Whether a link was found that is a tap device with a hardware address on the bridge.
pub open spec fn tap_is_found(
    t: Trace,
    u: Trace,
    name: Seq<char>,
    mac: Seq<char>,
    bridge: Seq<char>,
) -> bool {
    exists|text: Seq<char>|
        #![trigger is_owned_tap(text, mac, bridge)]
        told(t, u, "ip"@, seq!["-d"@, "link"@, "show"@, "dev"@, name], true, text) && is_owned_tap(
            text,
            mac,
            bridge,
        )
}

proof fn lemma_stabilizing_goes_on(
    window: u64,
    name: Seq<char>,
    mac: Seq<char>,
    started: u64,
    stable: Option<u64>,
    t: Trace,
)
    ensures
        extends(t, stabilize_run(window, name, mac, started, stable, t).0),
    decreases t.replies.len() - t.issued.len(),
{
    let q = EffectView::Query(link_detail_cmd(name));
    let d = EffectView::Run(link_address_cmd(name, mac));
    lemma_extends_after(t, q);
    let t1 = t.after(q);
    lemma_and_then(t, t1, d);
    lemma_and_then(t, t1, EffectView::Clock);
    let t2 = moment_run(stable, t1).0;
    lemma_and_then(t, t2, EffectView::Clock);
    let t3 = t2.after(EffectView::Clock);
    if t2.issued.len() < t2.replies.len() {
        let moment = moment_run(stable, t1).1->Ok_0;
        lemma_waiting_goes_on(window, name, mac, started, Some(moment), t3);
        lemma_extends_transitive(
            t,
            t3,
            wait_run(window, name, mac, started, Some(moment), t3).0,
        );
    }
    if t1.issued.len() < t1.replies.len() {
        lemma_waiting_goes_on(window, name, mac, started, None, t1.after(d));
        lemma_extends_transitive(
            t,
            t1.after(d),
            wait_run(window, name, mac, started, None, t1.after(d)).0,
        );
    }
}

proof fn lemma_waiting_goes_on(
    window: u64,
    name: Seq<char>,
    mac: Seq<char>,
    started: u64,
    stable: Option<u64>,
    t: Trace,
)
    ensures
        extends(t, wait_run(window, name, mac, started, stable, t).0),
    decreases t.replies.len() - t.issued.len(),
{
    lemma_extends_after(t, EffectView::Clock);
    let t1 = t.after(EffectView::Clock);
    let w = EffectView::Wait(TAP_ADDRESS_POLL_INTERVAL_MS);
    lemma_and_then(t, t1, w);
    if t1.issued.len() < t1.replies.len() {
        lemma_stabilizing_goes_on(window, name, mac, started, stable, t1.after(w));
        lemma_extends_transitive(
            t,
            t1.after(w),
            stabilize_run(window, name, mac, started, stable, t1.after(w)).0,
        );
    }
}

proof fn lemma_made_tap(
    h: HostView,
    provisional: Seq<char>,
    name: Seq<char>,
    spec: TapSpecView,
    made: bool,
    t: Trace,
    t1: Trace,
    u: Trace,
)
    requires
        extends(t, t1),
        make_tap_run(h, provisional, name, spec, made, t1).1 == u,
        make_tap_run(h, provisional, name, spec, made, t1).2 is Ok,
    ensures
        make_tap_run(h, provisional, name, spec, made, t1).2->Ok_0 == (name, true),
        tap_is_made(
            t,
            u,
            h.tap_access,
            provisional,
            name,
            spec.mac,
            h.config.bridge_name,
        ),
{
    let failed = HostNetworkError::CommandFailed;
    let c = make_tap_cmd(h.tap_access, provisional);
    let t2 = t1.after(EffectView::Run(c));
    lemma_and_then(t, t1, EffectView::Run(c));
    let cs = tap_setup(h, provisional, spec.mac);
    let t3 = ran_all(t2, cs).0;
    lemma_runs_on(t, t2, cs);
    lemma_extends_self(t2);
    lemma_runs_on(t2, t2, cs);
    let ta = t3.after(EffectView::Clock);
    lemma_extends_after(t3, EffectView::Clock);
    let t4 = settle_run(h.settle_window_ms, provisional, spec.mac, t3).0;
    let started = crate::session::told_time(t3.reply(), failed)->Ok_0;
    lemma_stabilizing_goes_on(h.settle_window_ms, provisional, spec.mac, started, None, ta);
    lemma_extends_transitive(t3, ta, t4);
    let change = tap_made(h, name, spec);
    lemma_saved(t3, t4, h, change);
    let (h5, t5, r5) = update_run(h, change, t4);
    let d = link_rename_cmd(provisional, name);
    let e = link_up_cmd(name);
    let t6 = t5.after(EffectView::Run(d));
    let t7 = t6.after(EffectView::Run(e));
    assert(u == t7);
    lemma_extends_transitive(t, t3, t5);
    lemma_and_then(t, t5, EffectView::Run(d));
    lemma_extends_after(t5, EffectView::Run(d));
    lemma_extends_after(t6, EffectView::Run(e));
    lemma_and_then(t3, t5, EffectView::Run(d));
    lemma_and_then(t3, t6, EffectView::Run(e));
    lemma_extends_transitive(t2, t3, u);
    lemma_extends_self(u);
    let words = tap_words(h.tap_access, provisional);
    assert(c.args =~= words);
    lemma_ran(t, t1, c, u, words);
    lemma_done(
        t,
        t2,
        cs,
        failed,
        failed,
        u,
        0,
        seq!["link"@, "set"@, "dev"@, provisional, "address"@, spec.mac],
    );
    lemma_done(
        t,
        t2,
        cs,
        failed,
        failed,
        u,
        1,
        seq!["link"@, "set"@, "dev"@, provisional, "master"@, h.config.bridge_name],
    );
    lemma_ran(t, t5, d, u, seq!["link"@, "set"@, "dev"@, provisional, "name"@, name]);
    lemma_ran(t, t6, e, u, seq!["link"@, "set"@, "dev"@, name, "up"@]);
}

/// A tap device that was ensured bears the name of its port and stands on the bridge with the
/// requested hardware address: it was made so, or was found so.
pub proof fn lemma_tap_stands(
    h: HostView,
    names: ProvisionalNamesView,
    spec: TapSpecView,
    t: Trace,
    h1: HostView,
    u: Trace,
    name: Seq<char>,
    made: bool,
)
    requires
        ensure_tap_run(h, names, spec, t) == (h1, u, Ok::<
            (Seq<char>, bool),
            Stop<HostNetworkError>,
        >((name, made))),
    ensures
        name == tap_name_text(spec.port_id),
        made ==> tap_is_made(
            t,
            u,
            ensure_bridge_run(h, names.bridge, t).0.tap_access,
            names.tap,
            name,
            spec.mac,
            h.config.bridge_name,
        ),
        !made ==> tap_is_found(t, u, name, spec.mac, h.config.bridge_name),
{
    let (ha, ta, bridge) = ensure_bridge_run(h, names.bridge, t);
    lemma_bridge_stands(h, names.bridge, t, ha, ta, bridge->Ok_0);
    let port = tap_name_text(spec.port_id);
    let q = EffectView::Query(link_show_cmd(port));
    lemma_and_then(t, ta, q);
    let tb = ta.after(q);
    match there(ta) {
        Ok(true) => {
            let c = link_detail_cmd(port);
            let (found, text) = queried(tb.reply(), HostNetworkError::CommandFailed)->Ok_0;
            lemma_extends_self(tb.after(EffectView::Query(c)));
            lemma_told(
                t,
                tb,
                c,
                found,
                text,
                u,
                seq!["-d"@, "link"@, "show"@, "dev"@, port],
            );
            assert(is_owned_tap(text, spec.mac, h.config.bridge_name));
        },
        Ok(false) => {
            lemma_made_tap(ha, names.tap, port, spec, bridge->Ok_0, t, tb, u);
        },
        Err(_) => {},
    }
}

/// A tap device that was removed is gone: it was not there, or it was the requested one, recorded
/// as such, and was removed.
pub proof fn lemma_tap_is_gone(h: HostView, spec: TapSpecView, t: Trace, h1: HostView, u: Trace)
    requires
        delete_tap_run(h, spec, t) == (h1, u, Ok::<(), Stop<HostNetworkError>>(())),
    ensures
        there(t) == Ok::<bool, Stop<HostNetworkError>>(false) || (carried_out(
            t,
            u,
            "ip"@,
            seq!["link"@, "del"@, "dev"@, tap_name_text(spec.port_id)],
        ) && tap_is_found(
            t,
            u,
            tap_name_text(spec.port_id),
            spec.mac,
            h.config.bridge_name,
        )),
{
    let name = tap_name_text(spec.port_id);
    let a = EffectView::Query(link_show_cmd(name));
    let b = link_detail_cmd(name);
    let c = link_del_dev_cmd(name);
    let t1 = t.after(a);
    let t2 = t1.after(EffectView::Query(b));
    let t3 = t2.after(EffectView::Run(c));
    lemma_extends_after(t, a);
    lemma_and_then(t, t1, EffectView::Query(b));
    lemma_extends_self(t3);
    lemma_saved(t3, t3, h, tap_removed(h, name, spec));
    if there(t) == Ok::<bool, Stop<HostNetworkError>>(true) {
        lemma_extends_after(t2, EffectView::Run(c));
        lemma_extends_transitive(t2, t3, u);
        lemma_ran(t, t2, c, u, seq!["link"@, "del"@, "dev"@, name]);
        let (found, text) = queried(t1.reply(), HostNetworkError::CommandFailed)->Ok_0;
        lemma_told(t, t1, b, found, text, u, seq!["-d"@, "link"@, "show"@, "dev"@, name]);
        assert(is_owned_tap(text, spec.mac, h.config.bridge_name));
    }
}

} // verus!
