//! Making a recorded tap device again, and using one that is there.
use super::bridge::{adopt_run, ensure_bridge_run, ran, ran_all, there};
use super::commands::{link_line_cmd, link_rename_cmd};
use super::config::{spec_fault, tap_name_text, HostNetworkError, ProvisionalNamesView};
use super::laws::{lemma_slot_is, sound};
use super::links::is_owned_tap;
use super::manager::HostView;
use super::manifest::tap_record;
use super::taps::{
    ensure_tap_run, make_tap_cmd, make_tap_run, moment_run, settle_run, stabilize_run, tap_setup,
    wait_run, TapOutcome,
};
use super::types::{TapEntry, TapEntryView, TapSpecView};
use crate::fabric::commands::{
    link_address_cmd, link_detail_cmd, link_master_cmd, link_show_cmd, link_up_cmd,
};
use crate::session::{told_time, CommandView, EffectView, ReplyView, Stop, Trace};
use crate::table::{name_get, name_put};
use vstd::prelude::*;

verus! {

// ---------------------------------------------------------------------------
// Counting the tap devices that are made
// ---------------------------------------------------------------------------

/// Whether a command makes a tap device.
pub open spec fn adds_tap(c: CommandView) -> bool {
    c.args.len() >= 2 && c.args[0] == "tuntap"@ && c.args[1] == "add"@
}

/// Whether an effect makes a tap device.
pub open spec fn makes_tap(e: EffectView) -> bool {
    e matches EffectView::Run(c) && adds_tap(c)
}

/// How many of the effects make a tap device.
pub open spec fn taps_added(effects: Seq<EffectView>) -> nat
    decreases effects.len(),
{
    if effects.len() == 0 {
        0
    } else {
        taps_added(effects.drop_last()) + (if makes_tap(effects.last()) {
            1nat
        } else {
            0
        })
    }
}

proof fn lemma_after(t: Trace, e: EffectView)
    ensures
        taps_added(t.after(e).issued) == taps_added(t.issued) + (if makes_tap(e) {
            1nat
        } else {
            0
        }),
{
    assert(t.after(e).issued.drop_last() =~= t.issued);
}

proof fn lemma_words(a: Seq<char>, b: Seq<char>)
    ensures
        !adds_tap(link_address_cmd(a, b)),
        !adds_tap(link_master_cmd(a, b)),
        !adds_tap(link_rename_cmd(a, b)),
        !adds_tap(link_up_cmd(a)),
{
    reveal_strlit("link");
    reveal_strlit("tuntap");
    assert("link"@[0] == 'l' && "tuntap"@[0] == 't');
}

proof fn lemma_run_all(t: Trace, cs: Seq<CommandView>)
    requires
        forall|i: int| 0 <= i < cs.len() ==> !adds_tap(#[trigger] cs[i]),
    ensures
        taps_added(ran_all(t, cs).0.issued) == taps_added(t.issued),
    decreases cs.len(),
{
    if cs.len() > 0 {
        let head = cs.drop_last();
        assert forall|i: int| 0 <= i < head.len() implies !adds_tap(#[trigger] head[i]) by {
            assert(head[i] == cs[i]);
        }
        lemma_run_all(t, head);
        assert(!adds_tap(cs[cs.len() - 1]));
        lemma_after(ran_all(t, head).0, EffectView::Run(cs.last()));
    }
}

proof fn lemma_stabilizing(
    window: u64,
    name: Seq<char>,
    mac: Seq<char>,
    started: u64,
    stable: Option<u64>,
    t: Trace,
)
    ensures
        taps_added(stabilize_run(window, name, mac, started, stable, t).0.issued) == taps_added(
            t.issued,
        ),
    decreases t.replies.len() - t.issued.len(),
{
    let q = EffectView::Query(link_detail_cmd(name));
    let t1 = t.after(q);
    lemma_after(t, q);
    lemma_words(name, mac);
    let set = EffectView::Run(link_address_cmd(name, mac));
    lemma_after(t1, set);
    lemma_after(t1, EffectView::Clock);
    let (t2, known) = moment_run(stable, t1);
    let t3 = t2.after(EffectView::Clock);
    lemma_after(t2, EffectView::Clock);
    if t.reply() is Some {
        match known {
            Ok(moment) => {
                if t2.reply() is Some {
                    lemma_waiting(window, name, mac, started, Some(moment), t3);
                }
            },
            Err(_) => {},
        }
        if t1.reply() is Some {
            lemma_waiting(window, name, mac, started, None, t1.after(set));
        }
    }
}

proof fn lemma_waiting(
    window: u64,
    name: Seq<char>,
    mac: Seq<char>,
    started: u64,
    stable: Option<u64>,
    t: Trace,
)
    ensures
        taps_added(wait_run(window, name, mac, started, stable, t).0.issued) == taps_added(
            t.issued,
        ),
    decreases t.replies.len() - t.issued.len(),
{
    let wait = EffectView::Wait(super::manager::TAP_ADDRESS_POLL_INTERVAL_MS);
    let t1 = t.after(EffectView::Clock);
    lemma_after(t, EffectView::Clock);
    lemma_after(t1, wait);
    if t.reply() is Some && t1.reply() is Some {
        lemma_stabilizing(window, name, mac, started, stable, t1.after(wait));
    }
}

// ---------------------------------------------------------------------------
// What the host does
// ---------------------------------------------------------------------------

/// Whether the bridge is there and is the one that the manager made.
pub open spec fn bridge_is_live(h: HostView, t: Trace) -> bool {
    &&& there(t) == Ok::<bool, Stop<HostNetworkError>>(true)
    &&& adopt_run(h, t.after(EffectView::Query(link_show_cmd(h.config.bridge_name)))).1 == Ok::<
        bool,
        Stop<HostNetworkError>,
    >(false)
}

/// Whether the host carries out all that makes a tap device: it is made under its provisional
/// name and set up, its hardware address settles, its record is saved, and it gets its name and
/// is started.
pub open spec fn tap_can_be_made(
    h: HostView,
    provisional: Seq<char>,
    name: Seq<char>,
    mac: Seq<char>,
    t: Trace,
) -> bool {
    let t1 = t.after(EffectView::Run(make_tap_cmd(h.tap_access, provisional)));
    let (t2, set_up) = ran_all(t1, tap_setup(h, provisional, mac));
    let (t3, settled) = settle_run(h.settle_window_ms, provisional, mac, t2);
    let t4 = t3.after(EffectView::Save);
    let t5 = t4.after(EffectView::Run(link_rename_cmd(provisional, name)));
    &&& ran(t) is Ok
    &&& set_up is Ok
    &&& settled is Ok
    &&& t3.reply() == Some(ReplyView::Finished(true))
    &&& ran(t4) is Ok
    &&& ran(t5) is Ok
}

/// The record of the tap device that a request is about.
pub open spec fn record_for(h: HostView, spec: TapSpecView) -> TapEntryView {
    let name = tap_name_text(spec.port_id);
    TapEntryView { key: name, tap: tap_record(h.config, name, spec) }
}

/// Whether the record of the manager holds the tap device that a request is about.
pub open spec fn tap_recorded(h: HostView, spec: TapSpecView) -> bool {
    &&& h.ownership is Some
    &&& name_get::<TapEntry>(h.taps(), tap_name_text(spec.port_id)) == Some(record_for(h, spec))
}

/// Whether there is exactly one record under a name.
pub open spec fn recorded_once(taps: Seq<TapEntryView>, name: Seq<char>) -> bool {
    exists|i: int|
        0 <= i < taps.len() && (#[trigger] taps[i]).key == name && forall|j: int|
            0 <= j < taps.len() && (#[trigger] taps[j]).key == name ==> j == i
}

/// Where the trace of a request stands when the bridge is in order and the tap device was looked
/// for.
pub open spec fn looked_for(h: HostView, names: ProvisionalNamesView, spec: TapSpecView, t: Trace) -> Trace {
    ensure_bridge_run(h, names.bridge, t).1.after(
        EffectView::Query(link_show_cmd(tap_name_text(spec.port_id))),
    )
}

proof fn lemma_adopting(h: HostView, names: ProvisionalNamesView, t: Trace)
    requires
        bridge_is_live(h, t),
    ensures
        ensure_bridge_run(h, names.bridge, t).0 == h,
        ensure_bridge_run(h, names.bridge, t).2 == Ok::<bool, Stop<HostNetworkError>>(false),
        taps_added(ensure_bridge_run(h, names.bridge, t).1.issued) == taps_added(t.issued),
{
    let b = h.config.bridge_name;
    let show = EffectView::Query(link_show_cmd(b));
    let detail = EffectView::Query(link_detail_cmd(b));
    let up = EffectView::Run(link_up_cmd(b));
    lemma_words(b, b);
    lemma_after(t, show);
    lemma_after(t.after(show), detail);
    let t2 = t.after(show).after(detail).after(up);
    lemma_after(t.after(show).after(detail), up);
    match h.config.uplink {
        Some(uplink) => lemma_after(t2, EffectView::Query(link_line_cmd(uplink))),
        None => {},
    }
}

proof fn lemma_record_is_kept(h: HostView, spec: TapSpecView)
    requires
        sound(h),
        tap_recorded(h, spec),
    ensures
        super::taps::tap_made(h, tap_name_text(spec.port_id), spec) == Some(
            Ok::<_, HostNetworkError>(h.ownership->0),
        ),
        recorded_once(h.taps(), tap_name_text(spec.port_id)),
{
    let name = tap_name_text(spec.port_id);
    let m = h.ownership->0;
    let entry = record_for(h, spec);
    let i = crate::table::name_slot::<TapEntry>(m.taps, name);
    crate::table::lemma_name_slot::<TapEntry>(m.taps, name);
    assert(m.taps[i] == entry);
    assert(name_put::<TapEntry>(m.taps, entry) =~= m.taps);
    assert forall|j: int| 0 <= j < m.taps.len() && (#[trigger] m.taps[j]).key == name implies j
        == i by {
        lemma_slot_is(m.taps, name, j);
    }
}

// ---------------------------------------------------------------------------
// Laws
// ---------------------------------------------------------------------------

/// A recorded tap device that is gone is made again, once: the request succeeds, exactly one tap
/// device is made, and the record is as it was, with one entry for the device.
pub proof fn lemma_recorded_tap_is_made_again(
    h: HostView,
    names: ProvisionalNamesView,
    spec: TapSpecView,
    t: Trace,
)
    requires
        sound(h),
        spec_fault(spec) is Ok,
        crate::text::trim(spec.port_id).len() > 0,
        tap_recorded(h, spec),
        bridge_is_live(h, t),
        there(ensure_bridge_run(h, names.bridge, t).1) == Ok::<bool, Stop<HostNetworkError>>(false),
        tap_can_be_made(
            h,
            names.tap,
            tap_name_text(spec.port_id),
            spec.mac,
            looked_for(h, names, spec, t),
        ),
    ensures
        ({
            let (h1, t1, r) = ensure_tap_run(h, names, spec, t);
            &&& r == TapOutcome::Ok((tap_name_text(spec.port_id), true))
            &&& h1 == h
            &&& recorded_once(h1.taps(), tap_name_text(spec.port_id))
            &&& taps_added(t1.issued) == taps_added(t.issued) + 1
        }),
{
    lemma_adopting(h, names, t);
    lemma_record_is_kept(h, spec);
    let name = tap_name_text(spec.port_id);
    let show = EffectView::Query(link_show_cmd(name));
    let made = EffectView::Run(make_tap_cmd(h.tap_access, names.tap));
    let t0 = ensure_bridge_run(h, names.bridge, t).1;
    lemma_after(t0, show);
    let t1 = t0.after(show);
    lemma_after(t1, made);
    assert(makes_tap(made));
    let t2 = t1.after(made);
    let setup = tap_setup(h, names.tap, spec.mac);
    lemma_words(names.tap, spec.mac);
    lemma_words(names.tap, h.config.bridge_name);
    lemma_run_all(t2, setup);
    let t3 = ran_all(t2, setup).0;
    lemma_after(t3, EffectView::Clock);
    match told_time(t3.reply(), HostNetworkError::CommandFailed) {
        Ok(started) => lemma_stabilizing(
            h.settle_window_ms,
            names.tap,
            spec.mac,
            started,
            None,
            t3.after(EffectView::Clock),
        ),
        Err(_) => {},
    }
    let t4 = settle_run(h.settle_window_ms, names.tap, spec.mac, t3).0;
    lemma_after(t4, EffectView::Save);
    let t5 = t4.after(EffectView::Save);
    let rename = EffectView::Run(link_rename_cmd(names.tap, name));
    let up = EffectView::Run(link_up_cmd(name));
    lemma_words(names.tap, name);
    lemma_words(name, name);
    lemma_after(t5, rename);
    lemma_after(t5.after(rename), up);
    assert(h.with(h.ownership->0) == h);
    assert(make_tap_run(h, names.tap, name, spec, false, t1) == (
        h,
        t5.after(rename).after(up),
        TapOutcome::Ok((name, true)),
    ));
}

/// A recorded tap device that is there is used as it is: the request succeeds, no tap device is
/// made, and the record is as it was, with one entry for the device.
pub proof fn lemma_present_tap_is_reused(
    h: HostView,
    names: ProvisionalNamesView,
    spec: TapSpecView,
    t: Trace,
    output: Seq<char>,
)
    requires
        sound(h),
        spec_fault(spec) is Ok,
        crate::text::trim(spec.port_id).len() > 0,
        tap_recorded(h, spec),
        bridge_is_live(h, t),
        there(ensure_bridge_run(h, names.bridge, t).1) == Ok::<bool, Stop<HostNetworkError>>(true),
        looked_for(h, names, spec, t).reply() == Some(ReplyView::Printed(true, output)),
        is_owned_tap(output, spec.mac, h.config.bridge_name),
    ensures
        ({
            let (h1, t1, r) = ensure_tap_run(h, names, spec, t);
            &&& r == TapOutcome::Ok((tap_name_text(spec.port_id), false))
            &&& h1 == h
            &&& recorded_once(h1.taps(), tap_name_text(spec.port_id))
            &&& taps_added(t1.issued) == taps_added(t.issued)
        }),
{
    lemma_adopting(h, names, t);
    lemma_record_is_kept(h, spec);
    super::laws::lemma_lower_twice(spec.mac);
    let name = tap_name_text(spec.port_id);
    let t0 = ensure_bridge_run(h, names.bridge, t).1;
    let show = EffectView::Query(link_show_cmd(name));
    lemma_after(t0, show);
    lemma_after(t0.after(show), EffectView::Query(link_detail_cmd(name)));
    assert(h.recorded(name, spec) is Ok);
}

/// A recorded tap device that is gone at the first request and there at the second is made by the
/// first and used by the second: over both exactly one tap device is made, and the record has one
/// entry for it throughout.
pub proof fn lemma_tap_is_made_once(
    h: HostView,
    first: ProvisionalNamesView,
    second: ProvisionalNamesView,
    spec: TapSpecView,
    t: Trace,
    u: Trace,
    output: Seq<char>,
)
    requires
        sound(h),
        spec_fault(spec) is Ok,
        crate::text::trim(spec.port_id).len() > 0,
        tap_recorded(h, spec),
        bridge_is_live(h, t),
        there(ensure_bridge_run(h, first.bridge, t).1) == Ok::<bool, Stop<HostNetworkError>>(false),
        tap_can_be_made(
            h,
            first.tap,
            tap_name_text(spec.port_id),
            spec.mac,
            looked_for(h, first, spec, t),
        ),
        bridge_is_live(h, u),
        there(ensure_bridge_run(h, second.bridge, u).1) == Ok::<bool, Stop<HostNetworkError>>(true),
        looked_for(h, second, spec, u).reply() == Some(ReplyView::Printed(true, output)),
        is_owned_tap(output, spec.mac, h.config.bridge_name),
    ensures
        ({
            let name = tap_name_text(spec.port_id);
            let (h1, t1, r1) = ensure_tap_run(h, first, spec, t);
            let (h2, u1, r2) = ensure_tap_run(h1, second, spec, u);
            &&& r1 == TapOutcome::Ok((name, true))
            &&& r2 == TapOutcome::Ok((name, false))
            &&& h2 == h
            &&& recorded_once(h1.taps(), name) && recorded_once(h2.taps(), name)
            &&& taps_added(t1.issued) + taps_added(u1.issued) == taps_added(t.issued) + taps_added(
                u.issued,
            ) + 1
        }),
{
    lemma_recorded_tap_is_made_again(h, first, spec, t);
    lemma_present_tap_is_reused(h, second, spec, u, output);
}

} // verus!
