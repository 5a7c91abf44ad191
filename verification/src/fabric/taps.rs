//! The tap devices of the endpoints on this host.
use super::backend::{FabricOutcome, LinuxFabricBackend};
use super::commands::{
    link_address, link_address_cmd, link_del_dev, link_del_dev_cmd, link_detail, link_detail_cmd,
    link_master, link_master_cmd, link_up, link_up_cmd, tap_add, tap_add_cmd,
};
use super::config::LinuxFabricError;
use super::links::{tap_link_matches, tap_matches};
use super::naming::{
    endpoint_hash, endpoint_tap_mac, endpoint_tap_name, endpoint_tap_name_text, hash_mac,
};
use super::plan::{NamespacedRoutedFabricPlan, NamespacedRoutedFabricPlanView};
use super::state::{
    EndpointTapOwnership, EndpointTapOwnershipView, ProviderStateView, RealmOwnership,
    RealmOwnershipView,
};
use crate::model::{copy_list, same_list, views, Model};
use crate::session::{
    demanded, queried, run_all, CommandView, Commands, Effect, EffectView, Session, Stop, Trace,
};
use crate::table::{find_id, id_get, id_put, put_id};
use crate::text::same;
use vstd::prelude::*;

verus! {

/// The tap device that an endpoint has.
pub open spec fn endpoint_tap(realm_id: u128, endpoint_id: u128) -> EndpointTapOwnershipView {
    EndpointTapOwnershipView {
        endpoint_id,
        interface: endpoint_tap_name_text(realm_id, endpoint_id),
        mac: hash_mac(endpoint_hash(realm_id, endpoint_id)),
    }
}

/// The tap devices of the endpoints on a host, added to those in `taps`, from the directory
/// entry at `i` on.
pub open spec fn local_taps(
    taps: Seq<EndpointTapOwnershipView>,
    plan: NamespacedRoutedFabricPlanView,
    i: int,
) -> Seq<EndpointTapOwnershipView>
    decreases plan.directory.entries.len() - i,
{
    let entries = plan.directory.entries;
    if i < 0 || i >= entries.len() {
        taps
    } else if entries[i].selected_host == plan.local_host {
        local_taps(
            id_put::<EndpointTapOwnership>(
                taps,
                endpoint_tap(plan.realm_id, entries[i].endpoint_id),
            ),
            plan,
            i + 1,
        )
    } else {
        local_taps(taps, plan, i + 1)
    }
}

fn local_taps_of(plan: &NamespacedRoutedFabricPlan) -> (r: Vec<EndpointTapOwnership>)
    ensures
        views(r@) == local_taps(Seq::empty(), plan@, 0),
{
    let mut taps: Vec<EndpointTapOwnership> = Vec::new();
    let ghost entries = plan@.directory.entries;
    assert(views(taps@) =~= Seq::<EndpointTapOwnershipView>::empty());
    for i in 0..plan.directory.entries.len()
        invariant
            entries == plan@.directory.entries,
            entries == views(plan.directory.entries@),
            local_taps(Seq::empty(), plan@, 0) == local_taps(views(taps@), plan@, i as int),
    {
        assert(entries[i as int] == plan.directory.entries@[i as int]@);
        let entry = &plan.directory.entries[i];
        if same(entry.selected_host.as_str(), plan.local_host.as_str()) {
            let tap = EndpointTapOwnership {
                endpoint_id: entry.endpoint_id,
                interface: endpoint_tap_name(plan.realm_id, entry.endpoint_id),
                mac: endpoint_tap_mac(plan.realm_id, entry.endpoint_id),
            };
            put_id(&mut taps, tap);
        }
    }
    taps
}

// ---------------------------------------------------------------------------
// Removing a tap
// ---------------------------------------------------------------------------

/// Removes a recorded tap device. A link of its name that does not match the record is foreign
/// and stays.
pub open spec fn remove_tap_run(
    tap: EndpointTapOwnershipView,
    bridge: Seq<char>,
    t: Trace,
) -> (Trace, FabricOutcome) {
    let t1 = t.after(EffectView::Query(link_detail_cmd(tap.interface)));
    match queried(t.reply(), LinuxFabricError::Storage) {
        Err(stop) => (t1, Err(stop)),
        Ok((false, _)) => (t1, Ok(())),
        Ok((true, output)) => if tap_matches(output, tap, bridge) {
            (
                t1.after(EffectView::Run(link_del_dev_cmd(tap.interface))),
                demanded(t1.reply(), LinuxFabricError::CommandFailed, LinuxFabricError::Storage),
            )
        } else {
            (t1, Err(Stop::Failed(LinuxFabricError::ForeignState)))
        },
    }
}

/// Performs [`remove_tap_run`].
pub fn remove_endpoint_tap(tap: &EndpointTapOwnership, bridge: &str, session: &mut Session) -> (r:
    FabricOutcome)
    ensures
        (final(session)@, r) == remove_tap_run(tap@, bridge@, old(session)@),
{
    match session.query(link_detail(tap.interface.as_str()), LinuxFabricError::Storage) {
        Err(stop) => Err(stop),
        Ok((exists, output)) => {
            if !exists {
                return Ok(());
            }
            if !tap_link_matches(output.as_str(), tap, bridge) {
                return Err(Stop::Failed(LinuxFabricError::ForeignState));
            }
            session.demand(
                Effect::Run(link_del_dev(tap.interface.as_str())),
                LinuxFabricError::CommandFailed,
                LinuxFabricError::Storage,
            )
        },
    }
}

/// Removes the recorded tap devices that are not in `kept`, from the one at `i` on.
pub open spec fn remove_taps_run(
    taps: Seq<EndpointTapOwnershipView>,
    kept: Seq<EndpointTapOwnershipView>,
    bridge: Seq<char>,
    i: int,
    t: Trace,
) -> (Trace, FabricOutcome)
    decreases taps.len() - i,
{
    if i < 0 || i >= taps.len() {
        (t, Ok(()))
    } else if id_get::<EndpointTapOwnership>(kept, taps[i].endpoint_id) is Some {
        remove_taps_run(taps, kept, bridge, i + 1, t)
    } else {
        let (t1, r1) = remove_tap_run(taps[i], bridge, t);
        if r1 is Err {
            (t1, r1)
        } else {
            remove_taps_run(taps, kept, bridge, i + 1, t1)
        }
    }
}

/// Performs [`remove_taps_run`] from the first tap device on.
pub fn remove_taps(
    taps: &Vec<EndpointTapOwnership>,
    kept: &Vec<EndpointTapOwnership>,
    bridge: &str,
    session: &mut Session,
) -> (r: FabricOutcome)
    ensures
        (final(session)@, r) == remove_taps_run(
            views(taps@),
            views(kept@),
            bridge@,
            0,
            old(session)@,
        ),
{
    let ghost ts = views(taps@);
    let ghost start = session@;
    for i in 0..taps.len()
        invariant
            ts == views(taps@),
            start == old(session)@,
            remove_taps_run(ts, views(kept@), bridge@, 0, start) == remove_taps_run(
                ts,
                views(kept@),
                bridge@,
                i as int,
                session@,
            ),
    {
        assert(ts[i as int] == taps@[i as int]@);
        if find_id(kept, taps[i].endpoint_id).is_none() {
            match remove_endpoint_tap(&taps[i], bridge, session) {
                Err(stop) => return Err(stop),
                Ok(_) => {},
            }
        }
    }
    Ok(())
}

// ---------------------------------------------------------------------------
// Making taps
// ---------------------------------------------------------------------------

/// The commands that make a tap device.
pub open spec fn tap_cmds(tap: EndpointTapOwnershipView, bridge: Seq<char>) -> Seq<CommandView> {
    Seq::empty().push(tap_add_cmd(tap.interface)).push(
        link_address_cmd(tap.interface, tap.mac),
    ).push(link_master_cmd(tap.interface, bridge)).push(link_up_cmd(tap.interface))
}

/// Makes sure that a wanted tap device is there. A link of its name is adopted only where it
/// matches and the record from before the operation names it.
pub open spec fn ensure_tap_run(
    own: RealmOwnershipView,
    wanted: EndpointTapOwnershipView,
    t: Trace,
) -> (Trace, FabricOutcome) {
    let recorded = id_get::<EndpointTapOwnership>(own.endpoint_taps, wanted.endpoint_id);
    let pending = id_get::<EndpointTapOwnership>(own.pending_endpoint_taps, wanted.endpoint_id);
    if recorded is Some && recorded != Some(wanted) {
        (t, Err(Stop::Failed(LinuxFabricError::OwnershipConflict)))
    } else {
        let t1 = t.after(EffectView::Query(link_detail_cmd(wanted.interface)));
        match queried(t.reply(), LinuxFabricError::Storage) {
            Err(stop) => (t1, Err(stop)),
            Ok((true, output)) => if tap_matches(output, wanted, own.bridge) && (recorded is Some
                || pending is Some) {
                (t1, Ok(()))
            } else {
                (t1, Err(Stop::Failed(LinuxFabricError::ForeignState)))
            },
            Ok((false, _)) => run_all(
                t1,
                tap_cmds(wanted, own.bridge),
                LinuxFabricError::CommandFailed,
                LinuxFabricError::Storage,
            ),
        }
    }
}

fn ensure_tap(own: &RealmOwnership, wanted: &EndpointTapOwnership, session: &mut Session) -> (r:
    FabricOutcome)
    ensures
        (final(session)@, r) == ensure_tap_run(own@, wanted@, old(session)@),
{
    let recorded = match find_id(&own.endpoint_taps, wanted.endpoint_id) {
        Some(k) => {
            if !own.endpoint_taps[k].same_as(wanted) {
                return Err(Stop::Failed(LinuxFabricError::OwnershipConflict));
            }
            true
        },
        None => false,
    };
    let pending = find_id(&own.pending_endpoint_taps, wanted.endpoint_id).is_some();
    match session.query(link_detail(wanted.interface.as_str()), LinuxFabricError::Storage) {
        Err(stop) => Err(stop),
        Ok((exists, output)) => {
            if exists {
                if tap_link_matches(output.as_str(), wanted, own.bridge.as_str()) && (recorded
                    || pending) {
                    return Ok(());
                }
                return Err(Stop::Failed(LinuxFabricError::ForeignState));
            }
            let dev = wanted.interface.as_str();
            let cs = Commands::none().push(tap_add(dev)).push(
                link_address(dev, wanted.mac.as_str()),
            ).push(link_master(dev, own.bridge.as_str())).push(link_up(dev));
            session.run_all(&cs, LinuxFabricError::CommandFailed, LinuxFabricError::Storage)
        },
    }
}

/// Makes sure that the wanted tap devices are there, from the one at `i` on.
pub open spec fn ensure_each_tap_run(
    own: RealmOwnershipView,
    wanted: Seq<EndpointTapOwnershipView>,
    i: int,
    t: Trace,
) -> (Trace, FabricOutcome)
    decreases wanted.len() - i,
{
    if i < 0 || i >= wanted.len() {
        (t, Ok(()))
    } else {
        let (t1, r1) = ensure_tap_run(own, wanted[i], t);
        if r1 is Err {
            (t1, r1)
        } else {
            ensure_each_tap_run(own, wanted, i + 1, t1)
        }
    }
}

fn ensure_each_tap(
    own: &RealmOwnership,
    wanted: &Vec<EndpointTapOwnership>,
    session: &mut Session,
) -> (r: FabricOutcome)
    ensures
        (final(session)@, r) == ensure_each_tap_run(own@, views(wanted@), 0, old(session)@),
{
    let ghost ws = views(wanted@);
    let ghost start = session@;
    for i in 0..wanted.len()
        invariant
            ws == views(wanted@),
            start == old(session)@,
            ensure_each_tap_run(own@, ws, 0, start) == ensure_each_tap_run(
                own@,
                ws,
                i as int,
                session@,
            ),
    {
        assert(ws[i as int] == wanted@[i as int]@);
        match ensure_tap(own, &wanted[i], session) {
            Err(stop) => return Err(stop),
            Ok(_) => {},
        }
    }
    Ok(())
}

/// Changes the host from the recorded tap devices of a realm to the wanted ones.
pub open spec fn change_taps_run(
    own: RealmOwnershipView,
    wanted: Seq<EndpointTapOwnershipView>,
    t: Trace,
) -> (Trace, FabricOutcome) {
    let (t1, r1) = remove_taps_run(own.endpoint_taps, wanted, own.bridge, 0, t);
    if r1 is Err {
        (t1, r1)
    } else {
        ensure_each_tap_run(own, wanted, 0, t1)
    }
}

/// Records the wanted tap devices as pending where they differ from the recorded ones and none
/// are pending yet.
pub open spec fn announce_taps_run(
    st: ProviderStateView,
    own: RealmOwnershipView,
    wanted: Seq<EndpointTapOwnershipView>,
    t: Trace,
) -> (ProviderStateView, Trace, FabricOutcome) {
    if own.endpoint_taps != wanted && own.pending_endpoint_taps.len() == 0 {
        (
            st.with_realm(RealmOwnershipView { pending_endpoint_taps: wanted, ..own }),
            t.after(EffectView::Save),
            demanded(t.reply(), LinuxFabricError::Storage, LinuxFabricError::Storage),
        )
    } else {
        (st, t, Ok(()))
    }
}

/// Records that the wanted tap devices are there.
pub open spec fn record_taps_run(
    st: ProviderStateView,
    own: RealmOwnershipView,
    wanted: Seq<EndpointTapOwnershipView>,
    t: Trace,
) -> (ProviderStateView, Trace, FabricOutcome) {
    if own.endpoint_taps != wanted || own.pending_endpoint_taps.len() != 0 {
        match st.realm(own.realm_id) {
            None => (st, t, Err(Stop::Failed(LinuxFabricError::CorruptState))),
            Some(current) => (
                st.with_realm(
                    RealmOwnershipView {
                        endpoint_taps: wanted,
                        pending_endpoint_taps: Seq::empty(),
                        ..current
                    },
                ),
                t.after(EffectView::Save),
                demanded(t.reply(), LinuxFabricError::Storage, LinuxFabricError::Storage),
            ),
        }
    } else {
        (st, t, Ok(()))
    }
}

/// Brings the tap devices of a realm in line with its plan. What is wanted is recorded as
/// pending before the host is changed, so that an interrupted change is resumed and not taken
/// for foreign.
pub open spec fn ensure_endpoint_taps_run(
    st: ProviderStateView,
    plan: NamespacedRoutedFabricPlanView,
    t: Trace,
) -> (ProviderStateView, Trace, FabricOutcome) {
    let wanted = local_taps(Seq::empty(), plan, 0);
    match st.realm(plan.realm_id) {
        None => (st, t, Err(Stop::Failed(LinuxFabricError::CorruptState))),
        Some(own) => if own.pending_endpoint_taps.len() != 0 && own.pending_endpoint_taps != wanted {
            (st, t, Err(Stop::Failed(LinuxFabricError::OwnershipConflict)))
        } else {
            let (st1, t1, r1) = announce_taps_run(st, own, wanted, t);
            if r1 is Err {
                (st1, t1, r1)
            } else {
                let (t2, r2) = change_taps_run(own, wanted, t1);
                if r2 is Err {
                    (st1, t2, r2)
                } else {
                    record_taps_run(st1, own, wanted, t2)
                }
            }
        },
    }
}

impl LinuxFabricBackend {
    fn announce_taps(
        &mut self,
        own: &RealmOwnership,
        wanted: &Vec<EndpointTapOwnership>,
        session: &mut Session,
    ) -> (r: FabricOutcome)
        ensures
            (final(self)@.state, final(session)@, r) == announce_taps_run(
                old(self)@.state,
                own@,
                views(wanted@),
                old(session)@,
            ),
            final(self)@ == old(self)@.with_state(final(self)@.state),
    {
        assert(own@.pending_endpoint_taps.len() == own.pending_endpoint_taps@.len());
        if !same_list(&own.endpoint_taps, wanted) && own.pending_endpoint_taps.len() == 0 {
            let mut next = own.copy();
            next.pending_endpoint_taps = copy_list(wanted);
            put_id(&mut self.state.realms, next);
            return session.demand(
                Effect::Save,
                LinuxFabricError::Storage,
                LinuxFabricError::Storage,
            );
        }
        Ok(())
    }

    fn record_taps(
        &mut self,
        own: &RealmOwnership,
        wanted: &Vec<EndpointTapOwnership>,
        session: &mut Session,
    ) -> (r: FabricOutcome)
        ensures
            (final(self)@.state, final(session)@, r) == record_taps_run(
                old(self)@.state,
                own@,
                views(wanted@),
                old(session)@,
            ),
            final(self)@ == old(self)@.with_state(final(self)@.state),
    {
        assert(own@.pending_endpoint_taps.len() == own.pending_endpoint_taps@.len());
        if !same_list(&own.endpoint_taps, wanted) || own.pending_endpoint_taps.len() != 0 {
            let mut next = match find_id(&self.state.realms, own.realm_id) {
                None => return Err(Stop::Failed(LinuxFabricError::CorruptState)),
                Some(i) => self.state.realms[i].copy(),
            };
            next.endpoint_taps = copy_list(wanted);
            next.pending_endpoint_taps = Vec::new();
            assert(next@.pending_endpoint_taps =~= Seq::<EndpointTapOwnershipView>::empty());
            put_id(&mut self.state.realms, next);
            return session.demand(
                Effect::Save,
                LinuxFabricError::Storage,
                LinuxFabricError::Storage,
            );
        }
        Ok(())
    }

    /// Performs [`ensure_endpoint_taps_run`].
    pub fn ensure_endpoint_taps(
        &mut self,
        plan: &NamespacedRoutedFabricPlan,
        session: &mut Session,
    ) -> (r: FabricOutcome)
        ensures
            (final(self)@.state, final(session)@, r) == ensure_endpoint_taps_run(
                old(self)@.state,
                plan@,
                old(session)@,
            ),
            final(self)@ == old(self)@.with_state(final(self)@.state),
    {
        let own = match find_id(&self.state.realms, plan.realm_id) {
            None => return Err(Stop::Failed(LinuxFabricError::CorruptState)),
            Some(i) => self.state.realms[i].copy(),
        };
        let wanted = local_taps_of(plan);
        assert(own@.pending_endpoint_taps.len() == own.pending_endpoint_taps@.len());
        if own.pending_endpoint_taps.len() != 0 && !same_list(&own.pending_endpoint_taps, &wanted) {
            return Err(Stop::Failed(LinuxFabricError::OwnershipConflict));
        }
        match self.announce_taps(&own, &wanted, session) {
            Err(stop) => return Err(stop),
            Ok(_) => {},
        }
        match remove_taps(&own.endpoint_taps, &wanted, own.bridge.as_str(), session) {
            Err(stop) => return Err(stop),
            Ok(_) => {},
        }
        match ensure_each_tap(&own, &wanted, session) {
            Err(stop) => return Err(stop),
            Ok(_) => {},
        }
        self.record_taps(&own, &wanted, session)
    }
}

} // verus!
