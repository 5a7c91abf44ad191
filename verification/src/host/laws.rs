//! What holds of the host network as a whole.
use super::bridge::{
    add_gateway_run, bridge_removed, cleanup_run, delete_bridge_run, ensure_bridge_run,
    ensure_gateway_run, give_up_run, live_run, remove_gateway_run, rollback_bridge_run, there,
};
use super::config::{spec_fault, tap_name_text, HostNetworkError, ProvisionalNamesView};
use super::links::{has_token, is_bridge, is_owned_tap, is_partial, partial_names, LinkBlockView};
use super::manager::{
    instances_of, spec_of, specs_of, update_run, HostView, TAP_ADDRESS_POLL_INTERVAL_MS,
};
use super::manifest::{
    entry_fault, manifest_fault, port_taken, recorded_fault, tap_record, taps_fault, with_tap,
    without_tap,
};
use super::taps::{
    delete_instance_run, delete_tap_run, delete_taps_run, ensure_tap_run, finish_tap_run,
    first_failure, make_tap_run, moment_run, resolve_run, rollback_recorded_run, rollback_tap_run,
    settle_run, since, stabilize_run, tap_made, tap_removed, wait_run,
};
use super::types::{
    GatewaySpec, HostNetworkConfigView, NetworkOwnershipManifestView, TapEntry, TapEntryView,
    TapSpecView,
};
use crate::fabric::commands::{link_address_cmd, link_detail_cmd, link_show_cmd};
use crate::fabric::naming::{is_hex_pair, is_mac, is_name};
use crate::order::before;
use crate::session::{EffectView, ReplyView, Stop, Trace};
use crate::table::{
    lemma_name_cut_sorted, lemma_name_put_sorted, lemma_name_slot, name_cut, name_get, name_put,
    name_slot, name_sorted,
};
use crate::text::{head_len, lemma_head_len, lower, lower_char, split, starts_with, trim};
use vstd::prelude::*;

verus! {

// ---------------------------------------------------------------------------
// Foreign links
// ---------------------------------------------------------------------------

/// A link that bears the name of a port's tap device, but is not a tap device with the requested
/// hardware address on the bridge, is not removed: the request is refused and nothing else is
/// done.
pub proof fn lemma_foreign_tap_stays(h: HostView, spec: TapSpecView, t: Trace, output: Seq<char>)
    requires
        spec_fault(spec) is Ok,
        trim(spec.port_id).len() > 0,
        there(t) == Ok::<bool, Stop<HostNetworkError>>(true),
        t.after(EffectView::Query(link_show_cmd(tap_name_text(spec.port_id)))).reply() == Some(
            ReplyView::Printed(true, output),
        ),
        !is_owned_tap(output, spec.mac, h.config.bridge_name) || h.recorded(
            tap_name_text(spec.port_id),
            spec,
        ) is Err,
    ensures
        ({
            let name = tap_name_text(spec.port_id);
            let t1 = t.after(EffectView::Query(link_show_cmd(name))).after(
                EffectView::Query(link_detail_cmd(name)),
            );
            delete_tap_run(h, spec, t) == (
                h,
                t1,
                Err::<(), Stop<HostNetworkError>>(
                    Stop::Failed(HostNetworkError::ForeignInterface),
                ),
            )
        }),
{
}

/// A link that bears the name of the bridge, but is not the recorded bridge, is not removed.
pub proof fn lemma_foreign_bridge_stays(h: HostView, t: Trace, output: Seq<char>)
    requires
        h.bridge() matches Some(b) && b.created_by_o3k && b.gateway is None,
        h.taps().len() == 0,
        there(t) == Ok::<bool, Stop<HostNetworkError>>(true),
        t.after(EffectView::Query(link_show_cmd(h.config.bridge_name))).reply() == Some(
            ReplyView::Printed(true, output),
        ),
        !is_bridge(output) || !h.owns_bridge(output),
    ensures
        ({
            let b = h.config.bridge_name;
            let t1 = t.after(EffectView::Query(link_show_cmd(b))).after(
                EffectView::Query(link_detail_cmd(b)),
            );
            delete_bridge_run(h, t) == (
                h,
                t1,
                Err::<(), Stop<HostNetworkError>>(
                    Stop::Failed(HostNetworkError::ForeignInterface),
                ),
            )
        }),
{
}

/// A bridge without a record is never removed, and neither is one that has a gateway or tap
/// devices: nothing is asked of the host.
pub proof fn lemma_unrecorded_bridge_stays(h: HostView, t: Trace)
    requires
        h.bridge() is None || h.gateway() is Some || h.taps().len() > 0,
    ensures
        delete_bridge_run(h, t).0 == h,
        delete_bridge_run(h, t).1 == t,
        delete_bridge_run(h, t).2 is Err,
{
}

/// The name of a tap device is told only where the record is the requested one and the live link
/// is a tap device with the requested hardware address on the bridge.
pub proof fn lemma_resolved_tap_is_proved(
    h: HostView,
    found: NetworkOwnershipManifestView,
    spec: TapSpecView,
    t: Trace,
)
    requires
        resolve_run(h, found, spec, t).2 is Ok,
    ensures
        ({
            let (h1, t1, r) = resolve_run(h, found, spec, t);
            let name = tap_name_text(spec.port_id);
            let n = t.issued.len() as int;
            &&& r == Ok::<Seq<char>, Stop<HostNetworkError>>(name)
            &&& h1 == h.with(found)
            &&& manifest_fault(h.config, found) is Ok
            &&& recorded_fault(h.config, found, name, spec) is Ok
            &&& t1.issued[n + 1] == EffectView::Query(link_detail_cmd(name))
            &&& t1.replies[n + 1] matches ReplyView::Printed(true, output) && is_owned_tap(
                output,
                spec.mac,
                h.config.bridge_name,
            )
        }),
{
    let name = tap_name_text(spec.port_id);
    let n = t.issued.len() as int;
    let t1 = t.after(EffectView::Query(link_show_cmd(name)));
    let t2 = t1.after(EffectView::Query(link_detail_cmd(name)));
    assert(t2.issued[n + 1] == EffectView::Query(link_detail_cmd(name)));
}

/// What is removed as the remains of interrupted creations is never the tap device of a port.
pub proof fn lemma_reaping_spares_ports(bs: Seq<LinkBlockView>, port_id: Seq<char>)
    ensures
        !partial_names(bs).contains(tap_name_text(port_id)),
        forall|i: int| 0 <= i < partial_names(bs).len() ==> is_name(#[trigger] partial_names(bs)[i]),
    decreases bs.len(),
{
    if bs.len() > 0 {
        lemma_reaping_spares_ports(bs.drop_last(), port_id);
        let known = partial_names(bs.drop_last());
        if is_partial(bs.last()) {
            let name = bs.last().name;
            reveal_strlit("o3kbm-");
            reveal_strlit("o3ktmp-");
            reveal_strlit("o3ktap-");
            let tap = tap_name_text(port_id);
            assert(tap[3] == 't' && tap[4] == 'a');
            if starts_with(name, "o3ktmp-"@) {
                assert(name[4] == name.take(7)[4]);
                assert(name[4] == "o3ktmp-"@[4]);
            } else {
                assert(name[3] == name.take(6)[3]);
                assert(name[3] == "o3kbm-"@[3]);
            }
            assert(name != tap);
            assert forall|i: int| 0 <= i < partial_names(bs).len() implies is_name(
                #[trigger] partial_names(bs)[i],
            ) && partial_names(bs)[i] != tap by {
                if i < known.len() {
                    assert(partial_names(bs)[i] == known[i]);
                }
            }
        }
    }
}

// ---------------------------------------------------------------------------
// The record
// ---------------------------------------------------------------------------

/// Whether the record of the tap device at `i` is in order.
pub open spec fn entry_sound(config: HostNetworkConfigView, taps: Seq<TapEntryView>, i: int) -> bool {
    &&& entry_fault(taps[i]) is Ok
    &&& taps[i].key == taps[i].tap.interface
    &&& taps[i].tap.bridge == config.bridge_name
    &&& taps[i].tap.created_by_o3k
}

/// Whether the records of the tap devices are in order: each by itself, and no two of the same
/// port.
pub open spec fn taps_sound(config: HostNetworkConfigView, taps: Seq<TapEntryView>) -> bool {
    &&& forall|i: int| 0 <= i < taps.len() ==> #[trigger] entry_sound(config, taps, i)
    &&& forall|i: int, j: int|
        0 <= i < j < taps.len() ==> (#[trigger] taps[i]).tap.port_id != (
        #[trigger] taps[j]).tap.port_id
}

/// Whether the records of the tap devices from the one at `n` on are in order.
spec fn sound_from(config: HostNetworkConfigView, taps: Seq<TapEntryView>, n: int) -> bool {
    forall|i: int|
        n <= i < taps.len() ==> #[trigger] entry_sound(config, taps, i) && !port_taken(
            taps,
            i,
            taps[i].tap.port_id,
        )
}

proof fn lemma_taps_sound_from(config: HostNetworkConfigView, taps: Seq<TapEntryView>, n: int)
    requires
        0 <= n <= taps.len(),
    ensures
        taps_fault(config, taps, n) is Ok <==> sound_from(config, taps, n),
    decreases taps.len() - n,
{
    if n < taps.len() {
        lemma_taps_sound_from(config, taps, n + 1);
        if sound_from(config, taps, n) {
            assert(entry_sound(config, taps, n));
            assert(sound_from(config, taps, n + 1));
        }
        if taps_fault(config, taps, n) is Ok {
            assert(sound_from(config, taps, n + 1));
            assert(entry_sound(config, taps, n));
        }
    }
}

/// The check of the tap devices accepts exactly the records that are in order.
pub proof fn lemma_taps_sound(config: HostNetworkConfigView, taps: Seq<TapEntryView>)
    ensures
        taps_fault(config, taps, 0) is Ok <==> taps_sound(config, taps),
{
    lemma_taps_sound_from(config, taps, 0);
    if taps_sound(config, taps) {
        assert forall|i: int| 0 <= i < taps.len() implies #[trigger] entry_sound(config, taps, i)
            && !port_taken(taps, i, taps[i].tap.port_id) by {}
    }
    if taps_fault(config, taps, 0) is Ok {
        assert forall|i: int, j: int| 0 <= i < j < taps.len() implies (
        #[trigger] taps[i]).tap.port_id != (#[trigger] taps[j]).tap.port_id by {
            assert(entry_sound(config, taps, j));
            assert(!port_taken(taps, j, taps[j].tap.port_id));
        }
        assert forall|i: int| 0 <= i < taps.len() implies #[trigger] entry_sound(config, taps, i) by {}
    }
}

/// Whether the manager's record is one that it would accept when it starts, with its tap devices
/// in the order of their names.
pub open spec fn sound(h: HostView) -> bool {
    match h.ownership {
        None => true,
        Some(m) => manifest_fault(h.config, m) is Ok && name_sorted::<TapEntry>(m.taps),
    }
}

proof fn lemma_head_len_lower(s: Seq<char>)
    ensures
        head_len(lower(s), ':') == head_len(s, ':'),
    decreases s.len(),
{
    if s.len() > 0 {
        lemma_lower_char(s[0]);
        assert(lower(s)[0] == lower_char(s[0]));
        if s[0] != ':' {
            lemma_head_len_lower(s.drop_first());
            assert(lower(s).drop_first() =~= lower(s.drop_first()));
        }
    }
}

proof fn lemma_lower_char(c: char)
    ensures
        lower_char(c) == ':' <==> c == ':',
        crate::text::is_hex_digit(c) ==> crate::text::is_hex_digit(lower_char(c)),
{
}

proof fn lemma_split_lower(s: Seq<char>)
    ensures
        split(lower(s), ':').len() == split(s, ':').len(),
        forall|i: int|
            0 <= i < split(s, ':').len() ==> #[trigger] split(lower(s), ':')[i] == lower(
                split(s, ':')[i],
            ),
    decreases s.len(),
{
    lemma_head_len_lower(s);
    lemma_head_len(s, ':');
    let n = head_len(s, ':') as int;
    let l = lower(s);
    if n < s.len() {
        lemma_split_lower(s.skip(n + 1));
        assert(lower(s).skip(n + 1) =~= lower(s.skip(n + 1)));
        assert(lower(s).take(n) =~= lower(s.take(n)));
        assert forall|i: int| 0 <= i < split(s, ':').len() implies #[trigger] split(l, ':')[i]
            == lower(split(s, ':')[i]) by {
            if i > 0 {
                assert(split(s, ':')[i] == split(s.skip(n + 1), ':')[i - 1]);
                assert(split(l, ':')[i] == split(l.skip(n + 1), ':')[i - 1]);
            }
        }
    }
}

/// A hardware address in lower case is still one.
pub proof fn lemma_lower_mac(mac: Seq<char>)
    requires
        is_mac(mac),
    ensures
        is_mac(lower(mac)),
{
    lemma_split_lower(mac);
    let parts = split(lower(mac), ':');
    assert forall|i: int| 0 <= i < 6 implies is_hex_pair(#[trigger] parts[i]) by {
        let p = split(mac, ':')[i];
        assert(is_hex_pair(p));
        assert(parts[i] == lower(p));
        lemma_lower_char(p[0]);
        lemma_lower_char(p[1]);
    }
}

/// Whether a port has no recorded tap device but the one of the given name.
pub open spec fn port_free(taps: Seq<TapEntryView>, name: Seq<char>, port_id: Seq<char>) -> bool {
    forall|i: int|
        0 <= i < taps.len() && (#[trigger] taps[i]).tap.port_id == port_id ==> taps[i].key == name
}

proof fn lemma_put_taps_sound(
    config: HostNetworkConfigView,
    taps: Seq<TapEntryView>,
    put: Seq<TapEntryView>,
    entry: TapEntryView,
    i: int,
)
    requires
        taps_sound(config, taps),
        name_sorted::<TapEntry>(put),
        0 <= i <= taps.len(),
        put == taps.insert(i, entry) || (i < taps.len() && put == taps.update(i, entry)),
        entry_fault(entry) is Ok,
        entry.key == entry.tap.interface,
        entry.tap.bridge == config.bridge_name,
        entry.tap.created_by_o3k,
        port_free(taps, entry.key, entry.tap.port_id),
    ensures
        taps_sound(config, put),
{
    let at = |k: int| if put.len() == taps.len() || k < i { k } else { k - 1 };
    assert forall|k: int| 0 <= k < put.len() && k != i implies 0 <= at(k) < taps.len()
        && #[trigger] put[k] == taps[at(k)] by {}
    assert(put[i] == entry);
    assert forall|k: int| 0 <= k < put.len() implies #[trigger] entry_sound(config, put, k) by {
        if k != i {
            assert(put[k] == taps[at(k)]);
            assert(entry_sound(config, taps, at(k)));
        }
    }
    assert forall|k: int| 0 <= k < put.len() && k != i implies (#[trigger] put[k]).tap.port_id
        != entry.tap.port_id by {
        crate::order::lemma_before_irreflexive(entry.key);
        assert(put[k] == taps[at(k)]);
        if k < i {
            assert(before(put[k].key, put[i].key));
        } else {
            assert(before(put[i].key, put[k].key));
        }
    }
    assert forall|a: int, b: int| 0 <= a < b < put.len() implies (#[trigger] put[a]).tap.port_id
        != (#[trigger] put[b]).tap.port_id by {
        if a != i && b != i {
            assert(put[a] == taps[at(a)] && put[b] == taps[at(b)]);
        }
    }
}

proof fn lemma_with_tap_sound(
    config: HostNetworkConfigView,
    m: NetworkOwnershipManifestView,
    name: Seq<char>,
    spec: TapSpecView,
)
    requires
        manifest_fault(config, m) is Ok,
        name_sorted::<TapEntry>(m.taps),
        spec_fault(spec) is Ok,
        is_name(name),
        port_free(m.taps, name, spec.port_id),
    ensures
        with_tap(config, m, name, spec) matches Ok(m1) ==> {
            &&& manifest_fault(config, m1) is Ok
            &&& name_sorted::<TapEntry>(m1.taps)
            &&& recorded_fault(config, m1, name, spec) is Ok
        },
{
    match with_tap(config, m, name, spec) {
        Err(_) => {},
        Ok(m1) => {
            let entry = TapEntryView { key: name, tap: tap_record(config, name, spec) };
            let i = name_slot::<TapEntry>(m.taps, name);
            lemma_name_slot::<TapEntry>(m.taps, name);
            lemma_name_put_sorted::<TapEntry>(m.taps, entry);
            lemma_lower_mac(spec.mac);
            lemma_taps_sound(config, m.taps);
            lemma_taps_sound(config, m1.taps);
            assert(m1.taps[i] == entry);
            lemma_put_taps_sound(config, m.taps, m1.taps, entry, i);
            lemma_slot_is(m1.taps, name, i);
            lemma_lower_twice(spec.mac);
        },
    }
}

pub(crate) proof fn lemma_lower_twice(s: Seq<char>)
    ensures
        lower(lower(s)) == lower(s),
{
    assert forall|i: int| 0 <= i < s.len() implies lower(lower(s))[i] == lower(s)[i] by {
        assert(lower(s)[i] == lower_char(s[i]));
        assert(lower(lower(s))[i] == lower_char(lower(s)[i]));
    }
    assert(lower(lower(s)) =~= lower(s));
}

pub(crate) proof fn lemma_slot_is(taps: Seq<TapEntryView>, name: Seq<char>, i: int)
    requires
        name_sorted::<TapEntry>(taps),
        0 <= i < taps.len(),
        taps[i].key == name,
    ensures
        name_slot::<TapEntry>(taps, name) == i,
{
    lemma_name_slot::<TapEntry>(taps, name);
    let k = name_slot::<TapEntry>(taps, name);
    crate::order::lemma_before_irreflexive(name);
    if k < i {
        assert(before(taps[k].key, taps[i].key));
    } else if k > i {
        assert(before(taps[i].key, name));
    }
}

proof fn lemma_cut_taps_sound(
    config: HostNetworkConfigView,
    taps: Seq<TapEntryView>,
    cut: Seq<TapEntryView>,
    i: int,
)
    requires
        taps_sound(config, taps),
        0 <= i < taps.len(),
        cut == taps.remove(i),
    ensures
        taps_sound(config, cut),
{
    let at = |k: int| if k < i { k } else { k + 1 };
    assert forall|k: int| 0 <= k < cut.len() implies 0 <= at(k) < taps.len() && #[trigger] cut[k]
        == taps[at(k)] by {}
    assert forall|k: int| 0 <= k < cut.len() implies #[trigger] entry_sound(config, cut, k) by {
        assert(cut[k] == taps[at(k)]);
        assert(entry_sound(config, taps, at(k)));
    }
    assert forall|a: int, b: int| 0 <= a < b < cut.len() implies (#[trigger] cut[a]).tap.port_id
        != (#[trigger] cut[b]).tap.port_id by {
        assert(cut[a] == taps[at(a)] && cut[b] == taps[at(b)]);
    }
}

proof fn lemma_cut_is_gone(taps: Seq<TapEntryView>, name: Seq<char>)
    requires
        name_sorted::<TapEntry>(taps),
    ensures
        name_get::<TapEntry>(name_cut::<TapEntry>(taps, name), name) is None,
{
    let i = name_slot::<TapEntry>(taps, name);
    let cut = name_cut::<TapEntry>(taps, name);
    lemma_name_slot::<TapEntry>(taps, name);
    lemma_name_slot::<TapEntry>(cut, name);
    let k = name_slot::<TapEntry>(cut, name);
    if i < taps.len() && taps[i].key == name && k < cut.len() && cut[k].key == name {
        crate::order::lemma_before_irreflexive(name);
        if k < i {
            assert(before(taps[k].key, taps[i].key));
        } else {
            assert(before(taps[i].key, taps[k + 1].key));
        }
    }
}

proof fn lemma_without_tap_sound(
    config: HostNetworkConfigView,
    m: NetworkOwnershipManifestView,
    name: Seq<char>,
    spec: TapSpecView,
)
    requires
        manifest_fault(config, m) is Ok,
        name_sorted::<TapEntry>(m.taps),
    ensures
        without_tap(m, name, spec) matches Ok(m1) ==> {
            &&& manifest_fault(config, m1) is Ok
            &&& name_sorted::<TapEntry>(m1.taps)
            &&& name_get::<TapEntry>(m1.taps, name) is None
        },
{
    match without_tap(m, name, spec) {
        Err(_) => {},
        Ok(m1) => {
            let i = name_slot::<TapEntry>(m.taps, name);
            lemma_name_slot::<TapEntry>(m.taps, name);
            lemma_name_cut_sorted::<TapEntry>(m.taps, name);
            lemma_taps_sound(config, m.taps);
            lemma_taps_sound(config, m1.taps);
            lemma_cut_is_gone(m.taps, name);
            if i < m.taps.len() && m.taps[i].key == name {
                lemma_cut_taps_sound(config, m.taps, m1.taps, i);
            }
        },
    }
}

// ---------------------------------------------------------------------------
// The operations keep the record sound
// ---------------------------------------------------------------------------

proof fn lemma_bridge_removed_sound(h: HostView, t: Trace)
    requires
        sound(h),
    ensures
        sound(update_run(h, bridge_removed(h), t).0),
{
}

proof fn lemma_rollback_bridge_sound(h: HostView, e: HostNetworkError, t: Trace)
    requires
        sound(h),
    ensures
        sound(rollback_bridge_run(h, e, t).0),
        rollback_bridge_run(h, e, t).0.config == h.config,
{
    lemma_bridge_removed_sound(h, t);
}

proof fn lemma_give_up_sound(h: HostView, made: bool, stop: Stop<HostNetworkError>, t: Trace)
    requires
        sound(h),
    ensures
        sound(give_up_run(h, made, stop, t).0),
        give_up_run(h, made, stop, t).0.config == h.config,
{
    match stop {
        Stop::Failed(e) => lemma_rollback_bridge_sound(h, e, t),
        _ => {},
    }
}

/// A manager whose record is sound has a sound record after it made or took over the bridge,
/// whatever came of it. The recorded tap devices stay as they are.
pub proof fn lemma_ensure_bridge_keeps_record_sound(h: HostView, name: Seq<char>, t: Trace)
    requires
        sound(h),
    ensures
        sound(ensure_bridge_run(h, name, t).0),
        ensure_bridge_run(h, name, t).0.config == h.config,
        ensure_bridge_run(h, name, t).0.taps() == h.taps(),
{
}

/// A manager whose record is sound has a sound record after it added a gateway; where the
/// request succeeded and a record is kept, the gateway is the recorded one.
pub proof fn lemma_ensure_gateway_keeps_record_sound(
    h: HostView,
    name: Seq<char>,
    g: GatewaySpec,
    t: Trace,
)
    requires
        sound(h),
    ensures
        sound(ensure_gateway_run(h, name, g, t).0),
        ensure_gateway_run(h, name, g, t).2 is Ok && h.ownership is Some ==> ensure_gateway_run(
            h,
            name,
            g,
            t,
        ).0.gateway() == Some(g),
{
    if g.prefix_len <= 30 && !(h.gateway() matches Some(known) && known != g) {
        lemma_ensure_bridge_keeps_record_sound(h, name, t);
        let (h1, t1, made) = ensure_bridge_run(h, name, t);
        assert(h.ownership is Some ==> h1.ownership is Some);
        match made {
            Ok(true) => lemma_add_gateway_sound(h1, g, true, t1),
            Ok(false) => {
                let (t2, live) = live_run(h1, t1);
                lemma_add_gateway_sound(h1, g, false, t2);
            },
            Err(_) => {},
        }
    }
}

proof fn lemma_add_gateway_sound(h: HostView, g: GatewaySpec, made: bool, t: Trace)
    requires
        sound(h),
        g.prefix_len <= 30,
    ensures
        sound(add_gateway_run(h, g, made, t).0),
        add_gateway_run(h, g, made, t).2 is Ok && h.ownership is Some ==> add_gateway_run(
            h,
            g,
            made,
            t,
        ).0.gateway() == Some(g),
{
}

/// A manager whose record is sound has a sound record after it took the gateway away; where the
/// request succeeded, no gateway is recorded.
pub proof fn lemma_remove_gateway_keeps_record_sound(h: HostView, g: GatewaySpec, t: Trace)
    requires
        sound(h),
    ensures
        sound(remove_gateway_run(h, g, t).0),
        remove_gateway_run(h, g, t).2 is Ok ==> remove_gateway_run(h, g, t).0.gateway() is None,
        remove_gateway_run(h, g, t).0.taps() == h.taps(),
{
}

/// A manager whose record is sound has a sound record after it removed the bridge; where the
/// request succeeded, no bridge is recorded.
pub proof fn lemma_delete_bridge_keeps_record_sound(h: HostView, t: Trace)
    requires
        sound(h),
    ensures
        sound(delete_bridge_run(h, t).0),
        delete_bridge_run(h, t).2 is Ok ==> delete_bridge_run(h, t).0.bridge() is None,
{
}

/// Cleaning up keeps the record sound, leaves everything as it is where a tap device is recorded,
/// and forgets the bridge otherwise.
pub proof fn lemma_cleanup_keeps_record_sound(h: HostView, t: Trace)
    requires
        sound(h),
    ensures
        sound(cleanup_run(h, t).0),
        h.taps().len() > 0 ==> cleanup_run(h, t) == (h, t, Ok::<(), Stop<HostNetworkError>>(())),
        h.taps().len() == 0 && cleanup_run(h, t).2 is Ok ==> cleanup_run(h, t).0.bridge() is None,
{
    let (h1, t1, removed) = match h.gateway() {
        Some(g) => remove_gateway_run(h, g, t),
        None => (h, t, Ok(())),
    };
    match h.gateway() {
        Some(g) => lemma_remove_gateway_keeps_record_sound(h, g, t),
        None => {},
    }
    lemma_delete_bridge_keeps_record_sound(h1, t1);
}

proof fn lemma_rollback_tap_sound(
    h: HostView,
    name: Seq<char>,
    mac: Seq<char>,
    made: bool,
    stop: Stop<HostNetworkError>,
    t: Trace,
)
    requires
        sound(h),
    ensures
        sound(rollback_tap_run(h, name, mac, made, stop, t).0),
        rollback_tap_run(h, name, mac, made, stop, t).0.config == h.config,
{
    let t2 = t.after(EffectView::Query(link_detail_cmd(name))).after(
        EffectView::Run(crate::fabric::commands::link_del_dev_cmd(name)),
    );
    lemma_give_up_sound(h, made, stop, t2);
}

proof fn lemma_tap_removed_sound(h: HostView, name: Seq<char>, spec: TapSpecView, t: Trace)
    requires
        sound(h),
    ensures
        sound(update_run(h, tap_removed(h, name, spec), t).0),
        update_run(h, tap_removed(h, name, spec), t).2 is Ok ==> name_get::<TapEntry>(
            update_run(h, tap_removed(h, name, spec), t).0.taps(),
            name,
        ) is None,
{
    match h.ownership {
        Some(m) => lemma_without_tap_sound(h.config, m, name, spec),
        None => {},
    }
}

proof fn lemma_rollback_recorded_sound(
    h: HostView,
    live: Seq<char>,
    name: Seq<char>,
    spec: TapSpecView,
    made: bool,
    stop: Stop<HostNetworkError>,
    t: Trace,
)
    requires
        sound(h),
    ensures
        sound(rollback_recorded_run(h, live, name, spec, made, stop, t).0),
{
    lemma_rollback_tap_sound(h, live, spec.mac, made, stop, t);
    let (h1, t1, why) = rollback_tap_run(h, live, spec.mac, made, stop, t);
    lemma_tap_removed_sound(h1, name, spec, t1);
}

proof fn lemma_make_tap_sound(
    h: HostView,
    provisional: Seq<char>,
    name: Seq<char>,
    spec: TapSpecView,
    made: bool,
    t: Trace,
)
    requires
        sound(h),
        spec_fault(spec) is Ok,
        is_name(name),
        port_free(h.taps(), name, spec.port_id),
    ensures
        sound(make_tap_run(h, provisional, name, spec, made, t).0),
        make_tap_run(h, provisional, name, spec, made, t).2 is Ok ==> make_tap_run(
            h,
            provisional,
            name,
            spec,
            made,
            t,
        ).0.recorded(name, spec) is Ok,
{
    let t1 = t.after(
        EffectView::Run(super::taps::make_tap_cmd(h.tap_access, provisional)),
    );
    match super::bridge::ran(t) {
        Err(stop) => lemma_give_up_sound(h, made, stop, t1),
        Ok(()) => {
            let (t2, set_up) = super::bridge::ran_all(
                t1,
                super::taps::tap_setup(h, provisional, spec.mac),
            );
            match set_up {
                Err(stop) => lemma_rollback_tap_sound(h, provisional, spec.mac, made, stop, t2),
                Ok(()) => {
                    let (t3, settled) = settle_run(h.settle_window_ms, provisional, spec.mac, t2);
                    match settled {
                        Err(stop) => lemma_rollback_tap_sound(
                            h,
                            provisional,
                            spec.mac,
                            made,
                            stop,
                            t3,
                        ),
                        Ok(()) => {
                            match h.ownership {
                                Some(m) => lemma_with_tap_sound(h.config, m, name, spec),
                                None => {},
                            }
                            let (h4, t4, recorded) = update_run(h, tap_made(h, name, spec), t3);
                            assert(sound(h4));
                            match recorded {
                                Err(stop) => lemma_rollback_tap_sound(
                                    h4,
                                    provisional,
                                    spec.mac,
                                    made,
                                    stop,
                                    t4,
                                ),
                                Ok(()) => lemma_finish_tap_sound(
                                    h4,
                                    provisional,
                                    name,
                                    spec,
                                    made,
                                    t4,
                                ),
                            }
                        },
                    }
                },
            }
        },
    }
}

proof fn lemma_finish_tap_sound(
    h: HostView,
    provisional: Seq<char>,
    name: Seq<char>,
    spec: TapSpecView,
    made: bool,
    t: Trace,
)
    requires
        sound(h),
    ensures
        sound(finish_tap_run(h, provisional, name, spec, made, t).0),
        finish_tap_run(h, provisional, name, spec, made, t).2 is Ok ==> finish_tap_run(
            h,
            provisional,
            name,
            spec,
            made,
            t,
        ).0 == h,
{
    let t1 = t.after(
        EffectView::Run(super::commands::link_rename_cmd(provisional, name)),
    );
    match super::bridge::ran(t) {
        Err(stop) => lemma_rollback_recorded_sound(h, provisional, name, spec, made, stop, t1),
        Ok(()) => {
            let t2 = t1.after(EffectView::Run(crate::fabric::commands::link_up_cmd(name)));
            match super::bridge::ran(t1) {
                Err(stop) => lemma_rollback_recorded_sound(h, name, name, spec, made, stop, t2),
                Ok(()) => {},
            }
        },
    }
}

/// A manager whose record is sound has a sound record after it made or accepted a tap device; and
/// where the request succeeded, the record says that the device is the requested one. The port
/// may have no other recorded device.
pub proof fn lemma_ensure_tap_keeps_record_sound(
    h: HostView,
    names: ProvisionalNamesView,
    spec: TapSpecView,
    t: Trace,
)
    requires
        sound(h),
        is_name(tap_name_text(spec.port_id)),
        port_free(h.taps(), tap_name_text(spec.port_id), spec.port_id),
    ensures
        sound(ensure_tap_run(h, names, spec, t).0),
        ensure_tap_run(h, names, spec, t).2 matches Ok((name, _)) ==> name == tap_name_text(
            spec.port_id,
        ) && ensure_tap_run(h, names, spec, t).0.recorded(name, spec) is Ok,
{
    if spec_fault(spec) is Ok {
        lemma_ensure_bridge_keeps_record_sound(h, names.bridge, t);
        let (h1, t1, bridge) = ensure_bridge_run(h, names.bridge, t);
        match bridge {
            Ok(made) => {
                let name = tap_name_text(spec.port_id);
                let t2 = t1.after(EffectView::Query(link_show_cmd(name)));
                let t3 = t2.after(EffectView::Query(link_detail_cmd(name)));
                lemma_give_up_sound(
                    h1,
                    made,
                    Stop::Failed(HostNetworkError::ForeignInterface),
                    t3,
                );
                lemma_make_tap_sound(h1, names.tap, name, spec, made, t2);
                lemma_made_name(h1, names.tap, name, spec, made, t2);
            },
            Err(_) => {},
        }
    }
}

proof fn lemma_made_name(
    h: HostView,
    provisional: Seq<char>,
    name: Seq<char>,
    spec: TapSpecView,
    made: bool,
    t: Trace,
)
    ensures
        make_tap_run(h, provisional, name, spec, made, t).2 matches Ok((n, fresh)) ==> n == name
            && fresh,
{
}

/// A manager whose record is sound has a sound record after it removed a tap device; where the
/// request succeeded, the device is not recorded any more.
pub proof fn lemma_delete_tap_keeps_record_sound(h: HostView, spec: TapSpecView, t: Trace)
    requires
        sound(h),
    ensures
        sound(delete_tap_run(h, spec, t).0),
        delete_tap_run(h, spec, t).2 is Ok ==> name_get::<TapEntry>(
            delete_tap_run(h, spec, t).0.taps(),
            tap_name_text(spec.port_id),
        ) is None,
{
    let name = tap_name_text(spec.port_id);
    let t1 = t.after(EffectView::Query(link_show_cmd(name)));
    let t3 = t1.after(EffectView::Query(link_detail_cmd(name))).after(
        EffectView::Run(crate::fabric::commands::link_del_dev_cmd(name)),
    );
    lemma_tap_removed_sound(h, name, spec, t1);
    lemma_tap_removed_sound(h, name, spec, t3);
}

proof fn lemma_delete_taps_sound(
    h: HostView,
    specs: Seq<TapSpecView>,
    i: int,
    failure: Option<HostNetworkError>,
    t: Trace,
)
    requires
        sound(h),
    ensures
        sound(delete_taps_run(h, specs, i, failure, t).0),
    decreases specs.len() - i,
{
    if 0 <= i < specs.len() {
        lemma_delete_tap_keeps_record_sound(h, specs[i], t);
        let (h1, t1, deleted) = delete_tap_run(h, specs[i], t);
        match deleted {
            Err(Stop::Failed(e)) => lemma_delete_taps_sound(
                h1,
                specs,
                i + 1,
                first_failure(failure, e),
                t1,
            ),
            Ok(()) => lemma_delete_taps_sound(h1, specs, i + 1, failure, t1),
            _ => {},
        }
    }
}

/// A manager whose record is sound has a sound record after it removed the tap devices of an
/// instance.
pub proof fn lemma_delete_instance_keeps_record_sound(h: HostView, instance_id: Seq<char>, t: Trace)
    requires
        sound(h),
    ensures
        sound(delete_instance_run(h, instance_id, t).0),
{
    lemma_delete_taps_sound(h, specs_of(h.taps(), instance_id), 0, None, t);
}

/// Only tap devices that the manager made for the instance are chosen for removal with it.
pub proof fn lemma_chosen_taps_are_own(taps: Seq<TapEntryView>, instance_id: Seq<char>, i: int)
    requires
        0 <= i < specs_of(taps, instance_id).len(),
    ensures
        exists|k: int|
            0 <= k < taps.len() && (#[trigger] taps[k]).tap.created_by_o3k
                && taps[k].tap.instance_id == instance_id && spec_of(taps[k]) == specs_of(
                taps,
                instance_id,
            )[i],
{
    let p = |e: TapEntryView| e.tap.created_by_o3k && e.tap.instance_id == instance_id;
    let chosen = taps.filter(p);
    taps.lemma_filter_pred(p, i);
    assert(chosen.contains(chosen[i]));
    taps.lemma_filter_contains_rev(p, chosen[i]);
    let k = choose|k: int| 0 <= k < taps.len() && taps[k] == chosen[i];
    assert(spec_of(taps[k]) == specs_of(taps, instance_id)[i]);
}

// ---------------------------------------------------------------------------
// The instances
// ---------------------------------------------------------------------------

/// Whether an instance is that of one of the tap devices from the one at `i` on that the manager
/// made.
pub open spec fn owns_tap(taps: Seq<TapEntryView>, i: int, id: Seq<char>) -> bool {
    exists|k: int|
        i <= k < taps.len() && (#[trigger] taps[k]).tap.created_by_o3k
            && taps[k].tap.instance_id == id
}

proof fn lemma_put_contains(s: Seq<Seq<char>>, v: Seq<char>, x: Seq<char>)
    ensures
        name_put::<String>(s, v).contains(x) <==> s.contains(x) || x == v,
{
    lemma_name_slot::<String>(s, v);
    let i = name_slot::<String>(s, v);
    let r = name_put::<String>(s, v);
    if i < s.len() && s[i] == v {
        assert(r =~= s);
        assert(s.contains(v));
    } else {
        assert(r == s.insert(i, v));
        assert(r[i] == v);
        if s.contains(x) {
            let k = choose|k: int| 0 <= k < s.len() && s[k] == x;
            if k < i {
                assert(r[k] == x);
            } else {
                assert(r[k + 1] == x);
            }
        }
        if r.contains(x) && x != v {
            let k = choose|k: int| 0 <= k < r.len() && r[k] == x;
            if k < i {
                assert(s[k] == x);
            } else {
                assert(s[k - 1] == x);
            }
        }
    }
}

proof fn lemma_instances_from(known: Seq<Seq<char>>, taps: Seq<TapEntryView>, i: int, id: Seq<char>)
    requires
        name_sorted::<String>(known),
        0 <= i <= taps.len(),
    ensures
        name_sorted::<String>(instances_of(known, taps, i)),
        instances_of(known, taps, i).contains(id) <==> known.contains(id) || owns_tap(taps, i, id),
    decreases taps.len() - i,
{
    if i < taps.len() {
        let v = taps[i].tap.instance_id;
        if taps[i].tap.created_by_o3k {
            lemma_name_put_sorted::<String>(known, v);
            lemma_put_contains(known, v, id);
            lemma_instances_from(name_put::<String>(known, v), taps, i + 1, id);
        } else {
            lemma_instances_from(known, taps, i + 1, id);
        }
        if owns_tap(taps, i, id) && !owns_tap(taps, i + 1, id) {
            assert(taps[i].tap.instance_id == id);
        }
    }
}

/// The listed instances are exactly those of the tap devices that the manager made, each once
/// and in order.
pub proof fn lemma_instances(taps: Seq<TapEntryView>, id: Seq<char>)
    ensures
        name_sorted::<String>(instances_of(Seq::empty(), taps, 0)),
        instances_of(Seq::empty(), taps, 0).contains(id) <==> owns_tap(taps, 0, id),
{
    lemma_instances_from(Seq::empty(), taps, 0, id);
}

// ---------------------------------------------------------------------------
// The hardware address of a new tap device
// ---------------------------------------------------------------------------

/// Whether the effects at `i` and behind it are a look at a link that has the hardware address,
/// and at the clock.
pub open spec fn saw_address(t: Trace, i: int, name: Seq<char>, mac: Seq<char>) -> bool {
    &&& 0 <= i && i + 1 < t.issued.len() && i + 1 < t.replies.len()
    &&& t.issued[i] == EffectView::Query(link_detail_cmd(name))
    &&& t.issued[i + 1] == EffectView::Clock
    &&& t.replies[i + 1] is Time
    &&& t.replies[i] matches ReplyView::Printed(true, output) && has_token(
        output,
        "link/ether"@,
        mac,
    )
}

/// Whether the effect at `i` leaves the link alone, and every look at it sees the hardware address.
pub open spec fn steady_at(t: Trace, i: int, name: Seq<char>, mac: Seq<char>) -> bool {
    match t.issued[i] {
        EffectView::Query(_) => saw_address(t, i, name, mac),
        EffectView::Clock => true,
        EffectView::Wait(_) => true,
        _ => false,
    }
}

/// Whether every look from the one at `k` on saw the hardware address, without its being set.
pub open spec fn steady(t: Trace, k: int, name: Seq<char>, mac: Seq<char>) -> bool {
    &&& saw_address(t, k, name, mac)
    &&& forall|i: int| k <= i < t.issued.len() ==> #[trigger] steady_at(t, i, name, mac)
}

/// Whether the looks from the one at `k` on span the settle window, up to the clock that was read
/// last.
pub open spec fn settled(t: Trace, k: int, name: Seq<char>, mac: Seq<char>, window: u64) -> bool {
    let n = t.issued.len() as int;
    &&& steady(t, k, name, mac)
    &&& saw_address(t, n - 2, name, mac) || saw_address(t, n - 3, name, mac)
    &&& t.issued[n - 1] is Clock && n <= t.replies.len() && t.replies[n - 1] is Time
    &&& since(t.replies[k + 1]->Time_0, t.replies[n - 1]->Time_0) >= window
}

proof fn lemma_still_steady(t: Trace, k: int, name: Seq<char>, mac: Seq<char>, e: EffectView)
    requires
        steady(t, k, name, mac),
        e is Clock || e is Wait,
    ensures
        steady(t.after(e), k, name, mac),
{
    let u = t.after(e);
    assert(u.issued[k] == t.issued[k] && u.issued[k + 1] == t.issued[k + 1]);
    assert forall|i: int| k <= i < u.issued.len() implies #[trigger] steady_at(u, i, name, mac) by {
        if i < t.issued.len() {
            assert(steady_at(t, i, name, mac));
            assert(u.issued[i] == t.issued[i]);
            if t.issued[i] is Query {
                assert(u.issued[i + 1] == t.issued[i + 1]);
            }
        }
    }
}

proof fn lemma_look(t: Trace, known: Option<int>, name: Seq<char>, mac: Seq<char>, output: Seq<char>)
    requires
        known matches Some(k) ==> steady(t, k, name, mac),
        t.reply() == Some(ReplyView::Printed(true, output)),
        has_token(output, "link/ether"@, mac),
        t.after(EffectView::Query(link_detail_cmd(name))).reply() matches Some(reply) && reply is Time,
    ensures
        ({
            let u = t.after(EffectView::Query(link_detail_cmd(name))).after(EffectView::Clock);
            let n = t.issued.len() as int;
            &&& saw_address(u, n, name, mac)
            &&& steady(
                u,
                match known {
                    Some(k) => k,
                    None => n,
                },
                name,
                mac,
            )
        }),
{
    let u = t.after(EffectView::Query(link_detail_cmd(name))).after(EffectView::Clock);
    let n = t.issued.len() as int;
    let k = match known {
        Some(k) => k,
        None => n,
    };
    assert(u.issued[n] == EffectView::Query(link_detail_cmd(name)));
    assert(u.issued[n + 1] == EffectView::Clock);
    if known is Some {
        assert(u.issued[k] == t.issued[k] && u.issued[k + 1] == t.issued[k + 1]);
    }
    assert forall|i: int| k <= i < u.issued.len() implies #[trigger] steady_at(u, i, name, mac) by {
        if i < n {
            assert(steady_at(t, i, name, mac));
            assert(u.issued[i] == t.issued[i]);
            if t.issued[i] is Query {
                assert(u.issued[i + 1] == t.issued[i + 1]);
            }
        }
    }
}

proof fn lemma_stabilized(
    window: u64,
    name: Seq<char>,
    mac: Seq<char>,
    started: u64,
    stable: Option<u64>,
    known: Option<int>,
    from: int,
    t: Trace,
)
    requires
        0 <= from <= t.issued.len(),
        known is Some == stable is Some,
        known matches Some(k) ==> from <= k && steady(t, k, name, mac) && t.replies[k + 1]->Time_0
            == stable->Some_0,
        stabilize_run(window, name, mac, started, stable, t).1 is Ok,
    ensures
        exists|k: int|
            from <= k && #[trigger] settled(
                stabilize_run(window, name, mac, started, stable, t).0,
                k,
                name,
                mac,
                window,
            ),
    decreases t.replies.len() - t.issued.len(),
{
    let t1 = t.after(EffectView::Query(link_detail_cmd(name)));
    let output = t.reply()->Some_0->Printed_1;
    let n = t.issued.len() as int;
    let wait = EffectView::Wait(TAP_ADDRESS_POLL_INTERVAL_MS);
    if has_token(output, "link/ether"@, mac) {
        lemma_look(t, known, name, mac, output);
        let k = match known {
            Some(k) => k,
            None => n,
        };
        let looked = t1.after(EffectView::Clock);
        let (t2, moments) = moment_run(stable, t1);
        let moment = moments->Ok_0;
        let t3 = t2.after(EffectView::Clock);
        if stable is None {
            lemma_still_steady(looked, k, name, mac, EffectView::Clock);
        }
        assert(steady(t3, k, name, mac));
        assert(saw_address(t3, n, name, mac));
        let now = t2.reply()->Some_0->Time_0;
        if since(moment, now) >= window {
            assert(stabilize_run(window, name, mac, started, stable, t).0 == t3);
            assert(settled(t3, k, name, mac, window));
        } else {
            let t4 = t3.after(EffectView::Clock);
            let t5 = t4.after(wait);
            lemma_still_steady(t3, k, name, mac, EffectView::Clock);
            lemma_still_steady(t4, k, name, mac, wait);
            assert(stabilize_run(window, name, mac, started, stable, t) == wait_run(
                window,
                name,
                mac,
                started,
                Some(moment),
                t3,
            ));
            assert(wait_run(window, name, mac, started, Some(moment), t3) == stabilize_run(
                window,
                name,
                mac,
                started,
                Some(moment),
                t5,
            ));
            lemma_stabilized(window, name, mac, started, Some(moment), Some(k), from, t5);
        }
    } else {
        let t2 = t1.after(EffectView::Run(link_address_cmd(name, mac)));
        let t4 = t2.after(EffectView::Clock).after(wait);
        assert(stabilize_run(window, name, mac, started, stable, t) == wait_run(
            window,
            name,
            mac,
            started,
            None,
            t2,
        ));
        assert(wait_run(window, name, mac, started, None, t2) == stabilize_run(
            window,
            name,
            mac,
            started,
            None,
            t4,
        ));
        lemma_stabilized(window, name, mac, started, None, None, from, t4);
    }
}

/// The hardware address of a new link counts as stable only when every look over the whole settle
/// window saw the requested one, and it was not set again meanwhile.
pub proof fn lemma_settled_address_was_steady(
    window: u64,
    name: Seq<char>,
    mac: Seq<char>,
    t: Trace,
)
    requires
        settle_run(window, name, mac, t).1 is Ok,
    ensures
        exists|k: int|
            t.issued.len() < k && #[trigger] settled(
                settle_run(window, name, mac, t).0,
                k,
                name,
                mac,
                window,
            ),
{
    let t1 = t.after(EffectView::Clock);
    let started = t.reply()->Some_0->Time_0;
    lemma_stabilized(window, name, mac, started, None, None, t1.issued.len() as int, t1);
}

} // verus!
