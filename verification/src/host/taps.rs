//! The tap devices of the instances of a host.
use super::bridge::{
    as_undone, describe, described, ensure_bridge_run, give_up_run, link_exists, ran, ran_all,
    run_one, there, undone,
};
use super::commands::{
    link_rename, link_rename_cmd, links_detail, links_detail_cmd, tap_add_for, tap_add_for_cmd,
};
use super::config::{
    is_reference, spec_fault, tap_name_text, validate_reference, validate_spec, HostNetworkError,
    ProvisionalNames, ProvisionalNamesView,
};
use super::links::{
    blocks, has_link_token, has_token, interface_output_is_owned, is_owned_tap, managed_names,
    managed_tap_names, partial_link_names, partial_names,
};
use super::manager::{
    refreshed, specs_of, update_run, HostNetworkManager, HostOutcome, HostView,
    TAP_ADDRESS_POLL_INTERVAL_MS, TAP_ADDRESS_STABILIZE_TIMEOUT_MS,
};
use super::manifest::{with_tap, without_tap};
use super::types::{
    NetworkOwnershipManifest, NetworkOwnershipManifestView, TapAccess, TapAccessView, TapSpec,
    TapSpecView,
};
use crate::fabric::commands::{
    link_address, link_address_cmd, link_del_dev, link_del_dev_cmd, link_detail, link_detail_cmd,
    link_master, link_master_cmd, link_show_cmd, link_up, link_up_cmd, tap_add, tap_add_cmd,
};
use crate::model::{view_opt, views};
use crate::session::{
    queried, run_all, told_time, Command, CommandView, Commands, Effect, EffectView, Session, Stop,
    Trace,
};
use crate::text::{lines, trim};
use vstd::prelude::*;

verus! {

// ---------------------------------------------------------------------------
// Is a live tap device the one that is meant?
// ---------------------------------------------------------------------------

/// Asks whether a live link is a tap device with the given hardware address on the bridge.
pub open spec fn owned_run(name: Seq<char>, mac: Seq<char>, bridge: Seq<char>, t: Trace) -> (
    Trace,
    HostOutcome<bool>,
) {
    (
        t.after(EffectView::Query(link_detail_cmd(name))),
        match queried(t.reply(), HostNetworkError::CommandFailed) {
            Err(stop) => Err(stop),
            Ok((false, _)) => Err(Stop::Failed(HostNetworkError::CommandFailed)),
            Ok((true, output)) => Ok(is_owned_tap(output, mac, bridge)),
        },
    )
}

/// Performs [`owned_run`].
pub fn interface_is_owned_with(
    name: &str,
    expected_mac: &str,
    bridge_name: &str,
    session: &mut Session,
) -> (r: HostOutcome<bool>)
    ensures
        (final(session)@, r) == owned_run(name@, expected_mac@, bridge_name@, old(session)@),
{
    match session.query(link_detail(name), HostNetworkError::CommandFailed) {
        Err(stop) => Err(stop),
        Ok((success, output)) => if !success {
            Err(Stop::Failed(HostNetworkError::CommandFailed))
        } else {
            Ok(interface_output_is_owned(output.as_str(), expected_mac, bridge_name))
        },
    }
}

// ---------------------------------------------------------------------------
// Undoing
// ---------------------------------------------------------------------------

/// Removes a tap device after a failure, and the bridge where this operation made it, and reports
/// the failure. A link that does not look like the device stays, and the undoing has failed.
pub open spec fn rollback_tap_run(
    h: HostView,
    name: Seq<char>,
    mac: Seq<char>,
    made: bool,
    stop: Stop<HostNetworkError>,
    t: Trace,
) -> (HostView, Trace, Stop<HostNetworkError>) {
    let failed = Stop::Failed(HostNetworkError::RollbackFailed);
    if stop is Pending {
        (h, t, stop)
    } else {
        let t1 = t.after(EffectView::Query(link_detail_cmd(name)));
        match described(t) {
            Err(why) => (h, t1, why),
            Ok(None) => (h, t1, failed),
            Ok(Some(output)) => if !is_owned_tap(output, mac, h.config.bridge_name) {
                (h, t1, failed)
            } else {
                let t2 = t1.after(EffectView::Run(link_del_dev_cmd(name)));
                match undone(ran(t1)) {
                    Err(why) => (h, t2, why),
                    Ok(()) => give_up_run(h, made, stop, t2),
                }
            },
        }
    }
}

/// The change of the record when a tap device is gone.
pub open spec fn tap_removed(h: HostView, name: Seq<char>, spec: TapSpecView) -> Option<
    Result<NetworkOwnershipManifestView, HostNetworkError>,
> {
    match h.ownership {
        Some(m) => Some(without_tap(m, name, spec)),
        None => None,
    }
}

/// Removes a recorded tap device after a failure, and forgets its record.
pub open spec fn rollback_recorded_run(
    h: HostView,
    live: Seq<char>,
    name: Seq<char>,
    spec: TapSpecView,
    made: bool,
    stop: Stop<HostNetworkError>,
    t: Trace,
) -> (HostView, Trace, Stop<HostNetworkError>) {
    let (h1, t1, why) = rollback_tap_run(h, live, spec.mac, made, stop, t);
    if why is Pending {
        (h1, t1, why)
    } else {
        let (h2, t2, cleared) = update_run(h1, tap_removed(h1, name, spec), t1);
        match undone(cleared) {
            Err(other) => (h2, t2, other),
            Ok(()) => (h2, t2, why),
        }
    }
}

impl HostNetworkManager {
    fn rollback_tap_and_bridge(
        &mut self,
        name: &str,
        mac: &str,
        made: bool,
        stop: Stop<HostNetworkError>,
        session: &mut Session,
    ) -> (r: Stop<HostNetworkError>)
        ensures
            (final(self)@, final(session)@, r) == rollback_tap_run(
                old(self)@,
                name@,
                mac@,
                made,
                stop,
                old(session)@,
            ),
    {
        let failed: Stop<HostNetworkError> = Stop::Failed(HostNetworkError::RollbackFailed);
        match stop {
            Stop::Pending => return stop,
            Stop::Failed(_) => {},
        }
        match describe(name, session) {
            Err(why) => return why,
            Ok(None) => return failed,
            Ok(Some(output)) => {
                if !interface_output_is_owned(
                    output.as_str(),
                    mac,
                    self.config.bridge_name.as_str(),
                ) {
                    return failed;
                }
            },
        }
        match as_undone(run_one(link_del_dev(name), session)) {
            Err(why) => return why,
            Ok(()) => {},
        }
        self.give_up(made, stop, session)
    }

    fn clear_tap_ownership(&mut self, name: &str, spec: &TapSpec, session: &mut Session) -> (r: HostOutcome<
        (),
    >)
        ensures
            (final(self)@, final(session)@, r) == update_run(
                old(self)@,
                tap_removed(old(self)@, name@, spec@),
                old(session)@,
            ),
    {
        let change: Option<Result<NetworkOwnershipManifest, HostNetworkError>> = match
            &self.ownership {
            None => None,
            Some(m) => Some(m.without_tap(name, spec)),
        };
        self.update_ownership(change, session)
    }

    fn rollback_recorded_tap(
        &mut self,
        live: &str,
        name: &str,
        spec: &TapSpec,
        made: bool,
        stop: Stop<HostNetworkError>,
        session: &mut Session,
    ) -> (r: Stop<HostNetworkError>)
        ensures
            (final(self)@, final(session)@, r) == rollback_recorded_run(
                old(self)@,
                live@,
                name@,
                spec@,
                made,
                stop,
                old(session)@,
            ),
    {
        let why = self.rollback_tap_and_bridge(live, spec.mac.as_str(), made, stop, session);
        match why {
            Stop::Pending => return why,
            Stop::Failed(_) => {},
        }
        match as_undone(self.clear_tap_ownership(name, spec, session)) {
            Err(other) => other,
            Ok(()) => why,
        }
    }
}

// ---------------------------------------------------------------------------
// The hardware address of a new tap device
// ---------------------------------------------------------------------------

/// The time between two moments of a clock that does not run backwards.
pub open spec fn since(earlier: u64, later: u64) -> int {
    if later < earlier {
        0
    } else {
        later - earlier
    }
}

/// The moment since which the hardware address is as requested: the known one, or now.
pub open spec fn moment_run(known: Option<u64>, t: Trace) -> (Trace, HostOutcome<u64>) {
    match known {
        Some(moment) => (t, Ok(moment)),
        None => (t.after(EffectView::Clock), told_time(t.reply(), HostNetworkError::CommandFailed)),
    }
}

/// Looks at the hardware address of a link until it has stayed as requested for the settle
/// window, and sets it again whenever it is another. Something on the host may replace the
/// address once, after the link was made; this is how the request wins. After a limit the
/// manager gives up.
pub open spec fn stabilize_run(
    window: u64,
    name: Seq<char>,
    mac: Seq<char>,
    started: u64,
    stable: Option<u64>,
    t: Trace,
) -> (Trace, HostOutcome<()>)
    decreases t.replies.len() - t.issued.len(),
{
    let failed = Err(Stop::Failed(HostNetworkError::CommandFailed));
    let t1 = t.after(EffectView::Query(link_detail_cmd(name)));
    match queried(t.reply(), HostNetworkError::CommandFailed) {
        Err(stop) => (t1, Err(stop)),
        Ok((false, _)) => (t1, failed),
        Ok((true, output)) => if has_token(output, "link/ether"@, mac) {
            let (t2, known) = moment_run(stable, t1);
            match known {
                Err(stop) => (t2, Err(stop)),
                Ok(moment) => {
                    let t3 = t2.after(EffectView::Clock);
                    match told_time(t2.reply(), HostNetworkError::CommandFailed) {
                        Err(stop) => (t3, Err(stop)),
                        Ok(now) => if since(moment, now) >= window {
                            (t3, Ok(()))
                        } else {
                            wait_run(window, name, mac, started, Some(moment), t3)
                        },
                    }
                },
            }
        } else {
            let t2 = t1.after(EffectView::Run(link_address_cmd(name, mac)));
            match ran(t1) {
                Err(stop) => (t2, Err(stop)),
                Ok(()) => wait_run(window, name, mac, started, None, t2),
            }
        },
    }
}

/// Waits before the next look, unless the limit is reached by now.
pub open spec fn wait_run(
    window: u64,
    name: Seq<char>,
    mac: Seq<char>,
    started: u64,
    stable: Option<u64>,
    t: Trace,
) -> (Trace, HostOutcome<()>)
    decreases t.replies.len() - t.issued.len(),
{
    let t1 = t.after(EffectView::Clock);
    match told_time(t.reply(), HostNetworkError::CommandFailed) {
        Err(stop) => (t1, Err(stop)),
        Ok(now) => if since(started, now) >= TAP_ADDRESS_STABILIZE_TIMEOUT_MS {
            (t1, Err(Stop::Failed(HostNetworkError::CommandFailed)))
        } else {
            let t2 = t1.after(EffectView::Wait(TAP_ADDRESS_POLL_INTERVAL_MS));
            match t1.reply() {
                None => (t2, Err(Stop::Pending)),
                Some(_) => stabilize_run(window, name, mac, started, stable, t2),
            }
        },
    }
}

/// Sees to it that the hardware address of a link stays as requested.
pub open spec fn settle_run(window: u64, name: Seq<char>, mac: Seq<char>, t: Trace) -> (
    Trace,
    HostOutcome<()>,
) {
    let t1 = t.after(EffectView::Clock);
    match told_time(t.reply(), HostNetworkError::CommandFailed) {
        Err(stop) => (t1, Err(stop)),
        Ok(started) => stabilize_run(window, name, mac, started, None, t1),
    }
}

fn elapsed(earlier: u64, later: u64) -> (r: u64)
    ensures
        r == since(earlier, later),
{
    if later < earlier {
        0
    } else {
        later - earlier
    }
}

/// Performs [`settle_run`].
pub fn stabilize_tap_address(window: u64, name: &str, mac: &str, session: &mut Session) -> (r:
    HostOutcome<()>)
    ensures
        (final(session)@, r) == settle_run(window, name@, mac@, old(session)@),
{
    let started: u64 = match session.clock(HostNetworkError::CommandFailed) {
        Err(stop) => return Err(stop),
        Ok(now) => now,
    };
    let mut stable: Option<u64> = None;
    let ghost start = session@;
    loop
        invariant
            settle_run(window, name@, mac@, old(session)@) == stabilize_run(
                window,
                name@,
                mac@,
                started,
                stable,
                session@,
            ),
        decreases session@.replies.len() - session@.issued.len(),
    {
        let ghost t = session@;
        let output: String = match session.query(
            link_detail(name),
            HostNetworkError::CommandFailed,
        ) {
            Err(stop) => return Err(stop),
            Ok((success, output)) => {
                if !success {
                    return Err(Stop::Failed(HostNetworkError::CommandFailed));
                }
                output
            },
        };
        if has_link_token(output.as_str(), "link/ether", mac) {
            let moment: u64 = match stable {
                Some(moment) => moment,
                None => match session.clock(HostNetworkError::CommandFailed) {
                    Err(stop) => return Err(stop),
                    Ok(now) => now,
                },
            };
            match session.clock(HostNetworkError::CommandFailed) {
                Err(stop) => return Err(stop),
                Ok(now) => {
                    if elapsed(moment, now) >= window {
                        return Ok(());
                    }
                },
            }
            stable = Some(moment);
        } else {
            match run_one(link_address(name, mac), session) {
                Err(stop) => return Err(stop),
                Ok(()) => {},
            }
            stable = None;
        }
        match session.clock(HostNetworkError::CommandFailed) {
            Err(stop) => return Err(stop),
            Ok(now) => {
                if elapsed(started, now) >= TAP_ADDRESS_STABILIZE_TIMEOUT_MS {
                    return Err(Stop::Failed(HostNetworkError::CommandFailed));
                }
            },
        }
        match session.attempt_effect::<HostNetworkError>(
            Effect::Wait(TAP_ADDRESS_POLL_INTERVAL_MS),
        ) {
            Err(stop) => return Err(stop),
            Ok(()) => {},
        }
    }
}

// ---------------------------------------------------------------------------
// Making a tap device
// ---------------------------------------------------------------------------

/// The command that makes a tap device.
pub open spec fn make_tap_cmd(access: Option<TapAccessView>, name: Seq<char>) -> CommandView {
    match access {
        None => tap_add_cmd(name),
        Some(a) => tap_add_for_cmd(name, a.user, a.group),
    }
}

fn make_tap(access: &Option<TapAccess>, name: &str) -> (r: Command)
    ensures
        r@ == make_tap_cmd(view_opt(*access), name@),
{
    match access {
        None => tap_add(name),
        Some(a) => tap_add_for(name, a.user.as_str(), a.group.as_str()),
    }
}

/// The change of the record when a tap device was made.
pub open spec fn tap_made(h: HostView, name: Seq<char>, spec: TapSpecView) -> Option<
    Result<NetworkOwnershipManifestView, HostNetworkError>,
> {
    match h.ownership {
        Some(m) => Some(with_tap(h.config, m, name, spec)),
        None => None,
    }
}

/// How a request for a tap device ends: with its name and whether it was made.
pub type TapOutcome = HostOutcome<(Seq<char>, bool)>;

/// Accepts a link that bears the name of the requested tap device.
pub open spec fn reuse_run(
    h: HostView,
    name: Seq<char>,
    spec: TapSpecView,
    made: bool,
    t: Trace,
) -> (HostView, Trace, TapOutcome) {
    let (t1, owned) = owned_run(name, spec.mac, h.config.bridge_name, t);
    match owned {
        Err(stop) => (h, t1, Err(stop)),
        Ok(false) => {
            let (h2, t2, why) = give_up_run(
                h,
                made,
                Stop::Failed(HostNetworkError::ForeignInterface),
                t1,
            );
            (h2, t2, Err(why))
        },
        Ok(true) => match h.recorded(name, spec) {
            Err(e) => (h, t1, Err(Stop::Failed(e))),
            Ok(()) => (h, t1, Ok((name, false))),
        },
    }
}

/// Gives a recorded tap device its name and starts it.
pub open spec fn finish_tap_run(
    h: HostView,
    provisional: Seq<char>,
    name: Seq<char>,
    spec: TapSpecView,
    made: bool,
    t: Trace,
) -> (HostView, Trace, TapOutcome) {
    let t1 = t.after(EffectView::Run(link_rename_cmd(provisional, name)));
    match ran(t) {
        Err(stop) => {
            let (h2, t2, why) = rollback_recorded_run(h, provisional, name, spec, made, stop, t1);
            (h2, t2, Err(why))
        },
        Ok(()) => {
            let t2 = t1.after(EffectView::Run(link_up_cmd(name)));
            match ran(t1) {
                Err(stop) => {
                    let (h3, t3, why) = rollback_recorded_run(h, name, name, spec, made, stop, t2);
                    (h3, t3, Err(why))
                },
                Ok(()) => (h, t2, Ok((name, true))),
            }
        },
    }
}

/// The commands that set a new tap device up under its provisional name.
pub open spec fn tap_setup(h: HostView, provisional: Seq<char>, mac: Seq<char>) -> Seq<
    CommandView,
> {
    Seq::empty().push(link_address_cmd(provisional, mac)).push(
        link_master_cmd(provisional, h.config.bridge_name),
    )
}

/// Makes a tap device: under a provisional name first, which it keeps until its record is
/// durable.
pub open spec fn make_tap_run(
    h: HostView,
    provisional: Seq<char>,
    name: Seq<char>,
    spec: TapSpecView,
    made: bool,
    t: Trace,
) -> (HostView, Trace, TapOutcome) {
    let t1 = t.after(EffectView::Run(make_tap_cmd(h.tap_access, provisional)));
    match ran(t) {
        Err(stop) => {
            let (h2, t2, why) = give_up_run(h, made, stop, t1);
            (h2, t2, Err(why))
        },
        Ok(()) => {
            let (t2, set_up) = ran_all(t1, tap_setup(h, provisional, spec.mac));
            match set_up {
                Err(stop) => {
                    let (h3, t3, why) = rollback_tap_run(h, provisional, spec.mac, made, stop, t2);
                    (h3, t3, Err(why))
                },
                Ok(()) => {
                    let (t3, settled) = settle_run(h.settle_window_ms, provisional, spec.mac, t2);
                    match settled {
                        Err(stop) => {
                            let (h4, t4, why) = rollback_tap_run(
                                h,
                                provisional,
                                spec.mac,
                                made,
                                stop,
                                t3,
                            );
                            (h4, t4, Err(why))
                        },
                        Ok(()) => {
                            let (h4, t4, recorded) = update_run(h, tap_made(h, name, spec), t3);
                            match recorded {
                                Err(stop) => {
                                    let (h5, t5, why) = rollback_tap_run(
                                        h4,
                                        provisional,
                                        spec.mac,
                                        made,
                                        stop,
                                        t4,
                                    );
                                    (h5, t5, Err(why))
                                },
                                Ok(()) => finish_tap_run(h4, provisional, name, spec, made, t4),
                            }
                        },
                    }
                },
            }
        },
    }
}

/// Sees to it that the requested tap device is there.
pub open spec fn ensure_tap_run(
    h: HostView,
    names: ProvisionalNamesView,
    spec: TapSpecView,
    t: Trace,
) -> (HostView, Trace, TapOutcome) {
    match spec_fault(spec) {
        Err(e) => (h, t, Err(Stop::Failed(e))),
        Ok(()) => {
            let (h1, t1, bridge) = ensure_bridge_run(h, names.bridge, t);
            match bridge {
                Err(stop) => (h1, t1, Err(stop)),
                Ok(made) => if trim(spec.port_id).len() == 0 {
                    (h1, t1, Err(Stop::Failed(HostNetworkError::InvalidName)))
                } else {
                    let name = tap_name_text(spec.port_id);
                    let t2 = t1.after(EffectView::Query(link_show_cmd(name)));
                    match there(t1) {
                        Err(stop) => (h1, t2, Err(stop)),
                        Ok(true) => reuse_run(h1, name, spec, made, t2),
                        Ok(false) => make_tap_run(h1, names.tap, name, spec, made, t2),
                    }
                },
            }
        },
    }
}

/// The outcome of a request for a tap device, by the text of its name.
pub open spec fn tap_outcome(r: HostOutcome<(String, bool)>) -> TapOutcome {
    match r {
        Ok((name, made)) => Ok((name@, made)),
        Err(stop) => Err(stop),
    }
}

/// The name of a tap device, by its text.
pub open spec fn name_outcome(r: HostOutcome<String>) -> HostOutcome<Seq<char>> {
    match r {
        Ok(name) => Ok(name@),
        Err(stop) => Err(stop),
    }
}

impl HostNetworkManager {
    fn reuse_tap(&mut self, name: String, spec: &TapSpec, made: bool, session: &mut Session) -> (r:
        HostOutcome<(String, bool)>)
        ensures
            (final(self)@, final(session)@, tap_outcome(r)) == reuse_run(
                old(self)@,
                name@,
                spec@,
                made,
                old(session)@,
            ),
    {
        match interface_is_owned_with(
            name.as_str(),
            spec.mac.as_str(),
            self.config.bridge_name.as_str(),
            session,
        ) {
            Err(stop) => Err(stop),
            Ok(false) => Err(
                self.give_up(made, Stop::Failed(HostNetworkError::ForeignInterface), session),
            ),
            Ok(true) => match self.validate_recorded_tap(name.as_str(), spec) {
                Err(e) => Err(Stop::Failed(e)),
                Ok(()) => Ok((name, false)),
            },
        }
    }

    fn finish_tap(
        &mut self,
        provisional: &str,
        name: String,
        spec: &TapSpec,
        made: bool,
        session: &mut Session,
    ) -> (r: HostOutcome<(String, bool)>)
        ensures
            (final(self)@, final(session)@, tap_outcome(r)) == finish_tap_run(
                old(self)@,
                provisional@,
                name@,
                spec@,
                made,
                old(session)@,
            ),
    {
        match run_one(link_rename(provisional, name.as_str()), session) {
            Err(stop) => {
                return Err(
                    self.rollback_recorded_tap(
                        provisional,
                        name.as_str(),
                        spec,
                        made,
                        stop,
                        session,
                    ),
                );
            },
            Ok(()) => {},
        }
        match run_one(link_up(name.as_str()), session) {
            Err(stop) => Err(
                self.rollback_recorded_tap(
                    name.as_str(),
                    name.as_str(),
                    spec,
                    made,
                    stop,
                    session,
                ),
            ),
            Ok(()) => Ok((name, true)),
        }
    }

    fn make_new_tap(
        &mut self,
        provisional: &str,
        name: String,
        spec: &TapSpec,
        made: bool,
        session: &mut Session,
    ) -> (r: HostOutcome<(String, bool)>)
        ensures
            (final(self)@, final(session)@, tap_outcome(r)) == make_tap_run(
                old(self)@,
                provisional@,
                name@,
                spec@,
                made,
                old(session)@,
            ),
    {
        let mac = spec.mac.as_str();
        match run_one(make_tap(&self.tap_access, provisional), session) {
            Err(stop) => return Err(self.give_up(made, stop, session)),
            Ok(()) => {},
        }
        let commands = Commands::none().push(link_address(provisional, mac)).push(
            link_master(provisional, self.config.bridge_name.as_str()),
        );
        let set_up: HostOutcome<()> = session.run_all(
            &commands,
            HostNetworkError::CommandFailed,
            HostNetworkError::CommandFailed,
        );
        match set_up {
            Err(stop) => {
                return Err(self.rollback_tap_and_bridge(provisional, mac, made, stop, session));
            },
            Ok(()) => {},
        }
        match stabilize_tap_address(self.settle_window_ms, provisional, mac, session) {
            Err(stop) => {
                return Err(self.rollback_tap_and_bridge(provisional, mac, made, stop, session));
            },
            Ok(()) => {},
        }
        let change: Option<Result<NetworkOwnershipManifest, HostNetworkError>> = match
            &self.ownership {
            None => None,
            Some(m) => Some(m.with_tap(&self.config, name.as_str(), spec)),
        };
        match self.update_ownership(change, session) {
            Err(stop) => Err(self.rollback_tap_and_bridge(provisional, mac, made, stop, session)),
            Ok(()) => self.finish_tap(provisional, name, spec, made, session),
        }
    }

    /// Performs [`ensure_tap_run`]. The result tells the name of the device and whether it was
    /// made, so that a caller who undoes its work removes only what it made.
    pub fn ensure_tap(&mut self, spec: &TapSpec, provisional: &ProvisionalNames, session: &mut Session)
        -> (r: HostOutcome<(String, bool)>)
        ensures
            (final(self)@, final(session)@, tap_outcome(r)) == ensure_tap_run(
                old(self)@,
                provisional@,
                spec@,
                old(session)@,
            ),
    {
        match validate_spec(spec) {
            Err(e) => return Err(Stop::Failed(e)),
            Ok(()) => {},
        }
        let made: bool = match self.ensure_bridge_with_ownership(
            provisional.bridge.as_str(),
            session,
        ) {
            Err(stop) => return Err(stop),
            Ok(made) => made,
        };
        let name = match HostNetworkManager::tap_name(spec.port_id.as_str()) {
            Err(e) => return Err(Stop::Failed(e)),
            Ok(name) => name,
        };
        match link_exists(name.as_str(), session) {
            Err(stop) => Err(stop),
            Ok(true) => self.reuse_tap(name, spec, made, session),
            Ok(false) => self.make_new_tap(provisional.tap.as_str(), name, spec, made, session),
        }
    }

    /// Sees to it that the requested tap device is there, and tells its name.
    pub fn create_tap(
        &mut self,
        spec: &TapSpec,
        provisional: &ProvisionalNames,
        session: &mut Session,
    ) -> (r: HostOutcome<String>)
        ensures
            ({
                let (h, t, done) = ensure_tap_run(
                    old(self)@,
                    provisional@,
                    spec@,
                    old(session)@,
                );
                &&& final(self)@ == h
                &&& final(session)@ == t
                &&& name_outcome(r) == match done {
                    Ok((name, _)) => Ok(name),
                    Err(stop) => Err(stop),
                }
            }),
    {
        match self.ensure_tap(spec, provisional, session) {
            Ok((name, _)) => Ok(name),
            Err(stop) => Err(stop),
        }
    }
}

// ---------------------------------------------------------------------------
// Removing tap devices
// ---------------------------------------------------------------------------

/// Removes a tap device and its record. A live link of its name has to be a tap device with the
/// hardware address of the request on the bridge, and has to be recorded for the request.
pub open spec fn delete_tap_run(h: HostView, spec: TapSpecView, t: Trace) -> (
    HostView,
    Trace,
    HostOutcome<()>,
) {
    match spec_fault(spec) {
        Err(e) => (h, t, Err(Stop::Failed(e))),
        Ok(()) => if trim(spec.port_id).len() == 0 {
            (h, t, Err(Stop::Failed(HostNetworkError::InvalidName)))
        } else {
            let name = tap_name_text(spec.port_id);
            let t1 = t.after(EffectView::Query(link_show_cmd(name)));
            match there(t) {
                Err(stop) => (h, t1, Err(stop)),
                Ok(false) => update_run(h, tap_removed(h, name, spec), t1),
                Ok(true) => {
                    let (t2, owned) = owned_run(name, spec.mac, h.config.bridge_name, t1);
                    match owned {
                        Err(stop) => (h, t2, Err(stop)),
                        Ok(false) => (
                            h,
                            t2,
                            Err(Stop::Failed(HostNetworkError::ForeignInterface)),
                        ),
                        Ok(true) => match h.recorded(name, spec) {
                            Err(e) => (h, t2, Err(Stop::Failed(e))),
                            Ok(()) => {
                                let t3 = t2.after(EffectView::Run(link_del_dev_cmd(name)));
                                match ran(t2) {
                                    Err(stop) => (h, t3, Err(stop)),
                                    Ok(()) => update_run(h, tap_removed(h, name, spec), t3),
                                }
                            },
                        },
                    }
                },
            }
        },
    }
}

/// The first of two failures.
pub open spec fn first_failure(known: Option<HostNetworkError>, e: HostNetworkError) -> Option<
    HostNetworkError,
> {
    match known {
        Some(_) => known,
        None => Some(e),
    }
}

/// What an operation on several things comes to.
pub open spec fn all_done(failure: Option<HostNetworkError>) -> HostOutcome<()> {
    match failure {
        Some(e) => Err(Stop::Failed(e)),
        None => Ok(()),
    }
}

/// Removes the tap devices of some requests from the one at `i` on. A failure does not keep the
/// others from being removed; the first one is reported.
pub open spec fn delete_taps_run(
    h: HostView,
    specs: Seq<TapSpecView>,
    i: int,
    failure: Option<HostNetworkError>,
    t: Trace,
) -> (HostView, Trace, HostOutcome<()>)
    decreases specs.len() - i,
{
    if i < 0 || i >= specs.len() {
        (h, t, all_done(failure))
    } else {
        let (h1, t1, deleted) = delete_tap_run(h, specs[i], t);
        match deleted {
            Err(Stop::Pending) => (h1, t1, Err(Stop::Pending)),
            Err(Stop::Failed(e)) => delete_taps_run(
                h1,
                specs,
                i + 1,
                first_failure(failure, e),
                t1,
            ),
            Ok(()) => delete_taps_run(h1, specs, i + 1, failure, t1),
        }
    }
}

/// Removes the recorded tap devices of an instance.
pub open spec fn delete_instance_run(h: HostView, instance_id: Seq<char>, t: Trace) -> (
    HostView,
    Trace,
    HostOutcome<()>,
) {
    if is_reference(instance_id) {
        delete_taps_run(h, specs_of(h.taps(), instance_id), 0, None, t)
    } else {
        (h, t, Err(Stop::Failed(HostNetworkError::InvalidName)))
    }
}

/// Removes links from the one at `i` on. A failure does not keep the others from being removed;
/// the first one is reported.
pub open spec fn reap_run(
    names: Seq<Seq<char>>,
    i: int,
    failure: Option<HostNetworkError>,
    t: Trace,
) -> (Trace, HostOutcome<()>)
    decreases names.len() - i,
{
    if i < 0 || i >= names.len() {
        (t, all_done(failure))
    } else {
        let t1 = t.after(EffectView::Run(link_del_dev_cmd(names[i])));
        match ran(t) {
            Err(Stop::Pending) => (t1, Err(Stop::Pending)),
            Err(Stop::Failed(e)) => reap_run(names, i + 1, first_failure(failure, e), t1),
            Ok(()) => reap_run(names, i + 1, failure, t1),
        }
    }
}

/// Removes what interrupted creations left. Such links have provisional names, to which no
/// record refers, and no name of a port's tap device is a provisional one.
pub open spec fn reap_partial_run(t: Trace) -> (Trace, HostOutcome<()>) {
    let t1 = t.after(EffectView::Query(links_detail_cmd()));
    match queried(t.reply(), HostNetworkError::CommandFailed) {
        Err(stop) => (t1, Err(stop)),
        Ok((false, _)) => (t1, Err(Stop::Failed(HostNetworkError::CommandFailed))),
        Ok((true, output)) => reap_run(partial_names(blocks(lines(output))), 0, None, t1),
    }
}

/// The names of the managed tap devices on the bridge.
pub open spec fn discover_run(h: HostView, t: Trace) -> (Trace, HostOutcome<Seq<Seq<char>>>) {
    (
        t.after(EffectView::Query(links_detail_cmd())),
        match queried(t.reply(), HostNetworkError::CommandFailed) {
            Err(stop) => Err(stop),
            Ok((false, _)) => Err(Stop::Failed(HostNetworkError::CommandFailed)),
            Ok((true, output)) => Ok(managed_names(blocks(lines(output)), h.config.bridge_name)),
        },
    )
}

/// Tells the name of a live tap device. It is told only where the durable record, which is read
/// anew, and the live link both prove that the device is the requested one: the name alone
/// proves nothing.
pub open spec fn resolve_run(
    h: HostView,
    found: NetworkOwnershipManifestView,
    spec: TapSpecView,
    t: Trace,
) -> (HostView, Trace, HostOutcome<Seq<char>>) {
    let (h1, fresh) = refreshed(h, found);
    match fresh {
        Err(e) => (h1, t, Err(Stop::Failed(e))),
        Ok(()) => match spec_fault(spec) {
            Err(e) => (h1, t, Err(Stop::Failed(e))),
            Ok(()) => if h1.ownership is None {
                (h1, t, Err(Stop::Failed(HostNetworkError::OwnershipConflict)))
            } else if trim(spec.port_id).len() == 0 {
                (h1, t, Err(Stop::Failed(HostNetworkError::InvalidName)))
            } else {
                let name = tap_name_text(spec.port_id);
                let t1 = t.after(EffectView::Query(link_show_cmd(name)));
                match there(t) {
                    Err(stop) => (h1, t1, Err(stop)),
                    Ok(false) => (h1, t1, Err(Stop::Failed(HostNetworkError::CommandFailed))),
                    Ok(true) => {
                        let (t2, owned) = owned_run(name, spec.mac, h1.config.bridge_name, t1);
                        match owned {
                            Err(stop) => (h1, t2, Err(stop)),
                            Ok(false) => (
                                h1,
                                t2,
                                Err(Stop::Failed(HostNetworkError::ForeignInterface)),
                            ),
                            Ok(true) => match h1.recorded(name, spec) {
                                Err(e) => (h1, t2, Err(Stop::Failed(e))),
                                Ok(()) => (h1, t2, Ok(name)),
                            },
                        }
                    },
                }
            },
        },
    }
}

fn first_of(known: Option<HostNetworkError>, e: HostNetworkError) -> (r: Option<HostNetworkError>)
    ensures
        r == first_failure(known, e),
{
    match known {
        Some(_) => known,
        None => Some(e),
    }
}

fn done(failure: Option<HostNetworkError>) -> (r: HostOutcome<()>)
    ensures
        r == all_done(failure),
{
    match failure {
        Some(e) => Err(Stop::Failed(e)),
        None => Ok(()),
    }
}

impl HostNetworkManager {
    /// Performs [`delete_tap_run`].
    pub fn delete_tap(&mut self, spec: &TapSpec, session: &mut Session) -> (r: HostOutcome<()>)
        ensures
            (final(self)@, final(session)@, r) == delete_tap_run(
                old(self)@,
                spec@,
                old(session)@,
            ),
    {
        match validate_spec(spec) {
            Err(e) => return Err(Stop::Failed(e)),
            Ok(()) => {},
        }
        let name = match HostNetworkManager::tap_name(spec.port_id.as_str()) {
            Err(e) => return Err(Stop::Failed(e)),
            Ok(name) => name,
        };
        match link_exists(name.as_str(), session) {
            Err(stop) => return Err(stop),
            Ok(false) => return self.clear_tap_ownership(name.as_str(), spec, session),
            Ok(true) => {},
        }
        match interface_is_owned_with(
            name.as_str(),
            spec.mac.as_str(),
            self.config.bridge_name.as_str(),
            session,
        ) {
            Err(stop) => return Err(stop),
            Ok(false) => return Err(Stop::Failed(HostNetworkError::ForeignInterface)),
            Ok(true) => {},
        }
        match self.validate_recorded_tap(name.as_str(), spec) {
            Err(e) => return Err(Stop::Failed(e)),
            Ok(()) => {},
        }
        match run_one(link_del_dev(name.as_str()), session) {
            Err(stop) => return Err(stop),
            Ok(()) => {},
        }
        self.clear_tap_ownership(name.as_str(), spec, session)
    }

    /// Performs [`delete_instance_run`].
    pub fn delete_taps_for_instance(&mut self, instance_id: &str, session: &mut Session) -> (r:
        HostOutcome<()>)
        ensures
            (final(self)@, final(session)@, r) == delete_instance_run(
                old(self)@,
                instance_id@,
                old(session)@,
            ),
    {
        match validate_reference(instance_id) {
            Err(e) => return Err(Stop::Failed(e)),
            Ok(()) => {},
        }
        let specs = self.owned_specs(instance_id);
        let ghost all = views(specs@);
        let ghost whole = delete_taps_run(self@, all, 0, None, session@);
        let mut failure: Option<HostNetworkError> = None;
        for i in 0..specs.len()
            invariant
                all == views(specs@),
                whole == delete_instance_run(old(self)@, instance_id@, old(session)@),
                whole == delete_taps_run(self@, all, i as int, failure, session@),
        {
            assert(all[i as int] == specs@[i as int]@);
            match self.delete_tap(&specs[i], session) {
                Err(Stop::Pending) => return Err(Stop::Pending),
                Err(Stop::Failed(e)) => {
                    failure = first_of(failure, e);
                },
                Ok(()) => {},
            }
        }
        done(failure)
    }

    /// Performs [`discover_run`].
    pub fn discover_managed(&self, session: &mut Session) -> (r: HostOutcome<Vec<String>>)
        ensures
            ({
                let (t, found) = discover_run(self@, old(session)@);
                &&& final(session)@ == t
                &&& match r {
                    Ok(names) => found == Ok::<Seq<Seq<char>>, Stop<HostNetworkError>>(
                        views(names@),
                    ),
                    Err(stop) => found == Err::<Seq<Seq<char>>, Stop<HostNetworkError>>(stop),
                }
            }),
    {
        match session.query(links_detail(), HostNetworkError::CommandFailed) {
            Err(stop) => Err(stop),
            Ok((success, output)) => if !success {
                Err(Stop::Failed(HostNetworkError::CommandFailed))
            } else {
                Ok(managed_tap_names(output.as_str(), self.config.bridge_name.as_str()))
            },
        }
    }

    /// Performs [`reap_partial_run`].
    pub fn reap_partial_links(&self, session: &mut Session) -> (r: HostOutcome<()>)
        ensures
            (final(session)@, r) == reap_partial_run(old(session)@),
    {
        let names = match session.query(links_detail(), HostNetworkError::CommandFailed) {
            Err(stop) => return Err(stop),
            Ok((success, output)) => {
                if !success {
                    return Err(Stop::Failed(HostNetworkError::CommandFailed));
                }
                partial_link_names(output.as_str())
            },
        };
        let ghost all = views(names@);
        let mut failure: Option<HostNetworkError> = None;
        for i in 0..names.len()
            invariant
                all == views(names@),
                reap_partial_run(old(session)@) == reap_run(all, i as int, failure, session@),
        {
            assert(all[i as int] == names@[i as int]@);
            match run_one(link_del_dev(names[i].as_str()), session) {
                Err(Stop::Pending) => return Err(Stop::Pending),
                Err(Stop::Failed(e)) => {
                    failure = first_of(failure, e);
                },
                Ok(()) => {},
            }
        }
        done(failure)
    }

    /// Performs [`resolve_run`].
    pub fn resolve_owned_tap(
        &mut self,
        spec: &TapSpec,
        found: NetworkOwnershipManifest,
        session: &mut Session,
    ) -> (r: HostOutcome<String>)
        ensures
            (final(self)@, final(session)@, name_outcome(r)) == resolve_run(
                old(self)@,
                found@,
                spec@,
                old(session)@,
            ),
    {
        match self.refresh_ownership(found) {
            Err(e) => return Err(Stop::Failed(e)),
            Ok(()) => {},
        }
        match validate_spec(spec) {
            Err(e) => return Err(Stop::Failed(e)),
            Ok(()) => {},
        }
        if self.ownership.is_none() {
            return Err(Stop::Failed(HostNetworkError::OwnershipConflict));
        }
        let name = match HostNetworkManager::tap_name(spec.port_id.as_str()) {
            Err(e) => return Err(Stop::Failed(e)),
            Ok(name) => name,
        };
        match link_exists(name.as_str(), session) {
            Err(stop) => return Err(stop),
            Ok(false) => return Err(Stop::Failed(HostNetworkError::CommandFailed)),
            Ok(true) => {},
        }
        match interface_is_owned_with(
            name.as_str(),
            spec.mac.as_str(),
            self.config.bridge_name.as_str(),
            session,
        ) {
            Err(stop) => return Err(stop),
            Ok(false) => return Err(Stop::Failed(HostNetworkError::ForeignInterface)),
            Ok(true) => {},
        }
        match self.validate_recorded_tap(name.as_str(), spec) {
            Err(e) => Err(Stop::Failed(e)),
            Ok(()) => Ok(name),
        }
    }
}

} // verus!
