//! The bridge of the host and its gateway address.
use super::commands::{
    address_del, address_del_cmd, address_replace, address_replace_cmd, link_down, link_down_cmd,
    link_line, link_line_cmd, link_rename, link_rename_cmd, named_bridge_add, named_bridge_add_cmd,
};
use super::config::{digest_mac, validate_gateway, HostNetworkError};
use super::links::{
    has_link_token, has_token, identity, interface_identity, interface_is_attached_to,
    interface_output_is_bridge, is_attached, is_bridge,
};
use super::manager::{update_run, HostNetworkManager, HostOutcome, HostView};
use super::manifest::{with_bridge, with_gateway, without_bridge, without_gateway};
use super::types::{GatewaySpec, NetworkOwnershipManifest, NetworkOwnershipManifestView};
use crate::fabric::commands::{
    link_address, link_address_cmd, link_del_dev, link_del_dev_cmd, link_detail, link_detail_cmd,
    link_master, link_master_cmd, link_show, link_show_cmd, link_up, link_up_cmd,
};
use crate::fabric::naming::is_name;
use crate::ipv4::{ipv4_of, ipv4_text};
use crate::render::{decimal, decimal_of};
use crate::session::{
    demanded, peeked, queried, run_all, Command, CommandView, Commands, Effect, EffectView, Session,
    Stop, Trace,
};
use crate::text::join3;
use vstd::prelude::*;

verus! {

// ---------------------------------------------------------------------------
// Single steps
// ---------------------------------------------------------------------------

/// What a command that has to succeed comes to.
pub open spec fn ran(t: Trace) -> HostOutcome<()> {
    demanded(t.reply(), HostNetworkError::CommandFailed, HostNetworkError::CommandFailed)
}

/// Runs a command that has to succeed.
pub(crate) fn run_one(c: Command, session: &mut Session) -> (r: HostOutcome<()>)
    ensures
        final(session)@ == old(session)@.after(EffectView::Run(c@)),
        r == ran(old(session)@),
{
    session.demand(
        Effect::Run(c),
        HostNetworkError::CommandFailed,
        HostNetworkError::CommandFailed,
    )
}

/// Runs commands until one fails.
pub open spec fn ran_all(t: Trace, cs: Seq<CommandView>) -> (Trace, HostOutcome<()>) {
    run_all(t, cs, HostNetworkError::CommandFailed, HostNetworkError::CommandFailed)
}

/// Whether a link is there: a command that cannot be run shows none.
pub open spec fn there(t: Trace) -> HostOutcome<bool> {
    match peeked::<HostNetworkError>(t.reply()) {
        Err(stop) => Err(stop),
        Ok(None) => Ok(false),
        Ok(Some((success, _))) => Ok(success),
    }
}

/// Asks whether a link is there.
pub(crate) fn link_exists(name: &str, session: &mut Session) -> (r: HostOutcome<bool>)
    ensures
        final(session)@ == old(session)@.after(EffectView::Query(link_show_cmd(name@))),
        r == there(old(session)@),
{
    match session.peek::<HostNetworkError>(link_show(name)) {
        Err(stop) => Err(stop),
        Ok(None) => Ok(false),
        Ok(Some((success, _))) => Ok(success),
    }
}

/// What is known of a link whose description may fail to come: the description, where the
/// command succeeded.
pub open spec fn described(t: Trace) -> HostOutcome<Option<Seq<char>>> {
    match peeked::<HostNetworkError>(t.reply()) {
        Err(stop) => Err(stop),
        Ok(Some((true, output))) => Ok(Some(output)),
        Ok(_) => Ok(None),
    }
}

/// The text of a description.
pub open spec fn description(r: HostOutcome<Option<String>>) -> HostOutcome<Option<Seq<char>>> {
    match r {
        Err(stop) => Err(stop),
        Ok(Some(output)) => Ok(Some(output@)),
        Ok(None) => Ok(None),
    }
}

/// Asks for the description of a link.
pub(crate) fn describe(name: &str, session: &mut Session) -> (r: HostOutcome<Option<String>>)
    ensures
        final(session)@ == old(session)@.after(EffectView::Query(link_detail_cmd(name@))),
        description(r) == described(old(session)@),
{
    match session.peek::<HostNetworkError>(link_detail(name)) {
        Err(stop) => Err(stop),
        Ok(None) => Ok(None),
        Ok(Some((success, output))) => if success {
            Ok(Some(output))
        } else {
            Ok(None)
        },
    }
}

/// What a step of an undoing comes to: a failure is a failure of the undoing.
pub open spec fn undone(r: HostOutcome<()>) -> HostOutcome<()> {
    match r {
        Err(Stop::Failed(_)) => Err(Stop::Failed(HostNetworkError::RollbackFailed)),
        other => other,
    }
}

pub(crate) fn as_undone(r: HostOutcome<()>) -> (u: HostOutcome<()>)
    ensures
        u == undone(r),
{
    match r {
        Err(Stop::Failed(_)) => Err(Stop::Failed(HostNetworkError::RollbackFailed)),
        other => other,
    }
}

// ---------------------------------------------------------------------------
// Undoing
// ---------------------------------------------------------------------------

/// Removes the bridge after a failure, and reports the failure. Only a bridge that is recorded
/// and still has the recorded identity is removed; one that cannot be proved to be the manager's
/// stays, and the undoing has failed.
pub open spec fn rollback_bridge_run(h: HostView, original: HostNetworkError, t: Trace) -> (
    HostView,
    Trace,
    Stop<HostNetworkError>,
) {
    let failed = Stop::Failed(HostNetworkError::RollbackFailed);
    if h.bridge() is None {
        (h, t, failed)
    } else {
        let t1 = t.after(EffectView::Query(link_detail_cmd(h.config.bridge_name)));
        match described(t) {
            Err(stop) => (h, t1, stop),
            Ok(None) => (h, t1, failed),
            Ok(Some(output)) => if !is_bridge(output) || !h.owns_bridge(output) {
                (h, t1, failed)
            } else {
                let t2 = t1.after(EffectView::Run(link_del_dev_cmd(h.config.bridge_name)));
                match undone(ran(t1)) {
                    Err(stop) => (h, t2, stop),
                    Ok(()) => {
                        let (h3, t3, r3) = update_run(h, bridge_removed(h), t2);
                        match undone(r3) {
                            Err(stop) => (h3, t3, stop),
                            Ok(()) => (h3, t3, Stop::Failed(original)),
                        }
                    },
                }
            },
        }
    }
}

/// The change of the record when the bridge is gone.
pub open spec fn bridge_removed(h: HostView) -> Option<
    Result<NetworkOwnershipManifestView, HostNetworkError>,
> {
    match h.ownership {
        Some(m) => Some(without_bridge(m)),
        None => None,
    }
}

/// Removes a bridge that still has its provisional name after a failure, and reports the
/// failure. The link has to be a bridge, with the hardware address that a new bridge gets, where
/// one was set.
pub open spec fn rollback_provisional_run(
    h: HostView,
    name: Seq<char>,
    original: HostNetworkError,
    t: Trace,
) -> (Trace, Stop<HostNetworkError>) {
    let failed = Stop::Failed(HostNetworkError::RollbackFailed);
    let t1 = t.after(EffectView::Query(link_detail_cmd(name)));
    match described(t) {
        Err(stop) => (t1, stop),
        Ok(None) => (t1, failed),
        Ok(Some(output)) => if !is_bridge(output) || (h.set_stable_bridge_mac && !(is_name(
            h.config.bridge_name,
        ) && has_token(output, "link/ether"@, digest_mac(h.config.bridge_name)))) {
            (t1, failed)
        } else {
            let t2 = t1.after(EffectView::Run(link_del_dev_cmd(name)));
            match undone(ran(t1)) {
                Err(stop) => (t2, stop),
                Ok(()) => (t2, Stop::Failed(original)),
            }
        },
    }
}

impl HostNetworkManager {
    fn clear_bridge_ownership(&mut self, session: &mut Session) -> (r: HostOutcome<()>)
        ensures
            (final(self)@, final(session)@, r) == update_run(
                old(self)@,
                bridge_removed(old(self)@),
                old(session)@,
            ),
    {
        let change: Option<Result<NetworkOwnershipManifest, HostNetworkError>> = match
            &self.ownership {
            None => None,
            Some(m) => Some(m.without_bridge()),
        };
        self.update_ownership(change, session)
    }

    /// Performs [`rollback_bridge_run`].
    pub(crate) fn rollback_bridge(&mut self, original: HostNetworkError, session: &mut Session) -> (r:
        Stop<HostNetworkError>)
        ensures
            (final(self)@, final(session)@, r) == rollback_bridge_run(
                old(self)@,
                original,
                old(session)@,
            ),
    {
        let failed: Stop<HostNetworkError> = Stop::Failed(HostNetworkError::RollbackFailed);
        if !self.has_bridge() {
            return failed;
        }
        match describe(self.config.bridge_name.as_str(), session) {
            Err(stop) => return stop,
            Ok(None) => return failed,
            Ok(Some(output)) => {
                if !interface_output_is_bridge(output.as_str()) || !self.bridge_is_owned_output(
                    output.as_str(),
                ) {
                    return failed;
                }
            },
        }
        match as_undone(run_one(link_del_dev(self.config.bridge_name.as_str()), session)) {
            Err(stop) => return stop,
            Ok(()) => {},
        }
        match as_undone(self.clear_bridge_ownership(session)) {
            Err(stop) => stop,
            Ok(()) => Stop::Failed(original),
        }
    }

    /// Performs [`rollback_provisional_run`].
    fn rollback_provisional_bridge(
        &self,
        name: &str,
        original: HostNetworkError,
        session: &mut Session,
    ) -> (r: Stop<HostNetworkError>)
        ensures
            (final(session)@, r) == rollback_provisional_run(
                self@,
                name@,
                original,
                old(session)@,
            ),
    {
        let failed: Stop<HostNetworkError> = Stop::Failed(HostNetworkError::RollbackFailed);
        match describe(name, session) {
            Err(stop) => return stop,
            Ok(None) => return failed,
            Ok(Some(output)) => {
                if !interface_output_is_bridge(output.as_str()) {
                    return failed;
                }
                if self.set_stable_bridge_mac {
                    match HostNetworkManager::deterministic_bridge_mac(
                        self.config.bridge_name.as_str(),
                    ) {
                        Err(_) => return failed,
                        Ok(mac) => {
                            if !has_link_token(output.as_str(), "link/ether", mac.as_str()) {
                                return failed;
                            }
                        },
                    }
                }
            },
        }
        match as_undone(run_one(link_del_dev(name), session)) {
            Err(stop) => stop,
            Ok(()) => Stop::Failed(original),
        }
    }
}

// ---------------------------------------------------------------------------
// The bridge
// ---------------------------------------------------------------------------

/// Takes over a bridge that exists. It has to be a bridge, the recorded one where a record is
/// kept, and an uplink has to be attached to it already.
pub open spec fn adopt_run(h: HostView, t: Trace) -> (Trace, HostOutcome<bool>) {
    let foreign = Err(Stop::Failed(HostNetworkError::ForeignInterface));
    let t1 = t.after(EffectView::Query(link_detail_cmd(h.config.bridge_name)));
    match queried(t.reply(), HostNetworkError::CommandFailed) {
        Err(stop) => (t1, Err(stop)),
        Ok((success, output)) => if !success || !is_bridge(output) || (h.ownership is Some
            && !h.owns_bridge(output)) {
            (t1, foreign)
        } else {
            let t2 = t1.after(EffectView::Run(link_up_cmd(h.config.bridge_name)));
            match ran(t1) {
                Err(stop) => (t2, Err(stop)),
                Ok(()) => match h.config.uplink {
                    None => (t2, Ok(false)),
                    Some(uplink) => {
                        let t3 = t2.after(EffectView::Query(link_line_cmd(uplink)));
                        match queried(t2.reply(), HostNetworkError::CommandFailed) {
                            Err(stop) => (t3, Err(stop)),
                            Ok((false, _)) => (
                                t3,
                                Err(Stop::Failed(HostNetworkError::CommandFailed)),
                            ),
                            Ok((true, line)) => if is_attached(line, h.config.bridge_name) {
                                (t3, Ok(false))
                            } else {
                                (t3, foreign)
                            },
                        }
                    },
                },
            }
        },
    }
}

/// The commands that set a new bridge up under its provisional name.
pub open spec fn bridge_setup(h: HostView, name: Seq<char>) -> Seq<CommandView> {
    if h.set_stable_bridge_mac {
        Seq::empty().push(link_address_cmd(name, digest_mac(h.config.bridge_name))).push(
            link_up_cmd(name),
        )
    } else {
        Seq::empty().push(link_up_cmd(name))
    }
}

/// Sets a new bridge up under its provisional name.
pub open spec fn setup_run(h: HostView, name: Seq<char>, t: Trace) -> (Trace, HostOutcome<()>) {
    if h.set_stable_bridge_mac && !is_name(h.config.bridge_name) {
        (t, Err(Stop::Failed(HostNetworkError::InvalidName)))
    } else {
        ran_all(t, bridge_setup(h, name))
    }
}

/// The commands that give a new bridge its name. A bridge is down while it is renamed.
pub open spec fn bridge_rename(h: HostView, name: Seq<char>) -> Seq<CommandView> {
    Seq::empty().push(link_down_cmd(name)).push(link_rename_cmd(name, h.config.bridge_name))
}

/// The commands that put a new bridge to work.
pub open spec fn bridge_start(h: HostView) -> Seq<CommandView> {
    let up = Seq::empty().push(link_up_cmd(h.config.bridge_name));
    match h.config.uplink {
        None => up,
        Some(uplink) => up.push(link_master_cmd(uplink, h.config.bridge_name)),
    }
}

/// Reports a failure after the bridge with a provisional name was removed.
pub open spec fn abandon_run(
    h: HostView,
    name: Seq<char>,
    stop: Stop<HostNetworkError>,
    t: Trace,
) -> (HostView, Trace, HostOutcome<bool>) {
    match stop {
        Stop::Pending => (h, t, Err(stop)),
        Stop::Failed(e) => {
            let (t1, why) = rollback_provisional_run(h, name, e, t);
            (h, t1, Err(why))
        },
    }
}

/// The change of the record when a bridge was made.
pub open spec fn bridge_made(h: HostView, id: Seq<char>) -> Option<
    Result<NetworkOwnershipManifestView, HostNetworkError>,
> {
    match h.ownership {
        Some(m) => Some(with_bridge(h.config, m, id)),
        None => None,
    }
}

/// Renames a recorded bridge and puts it to work.
pub open spec fn finish_bridge_run(h: HostView, name: Seq<char>, t: Trace) -> (
    HostView,
    Trace,
    HostOutcome<bool>,
) {
    let (t1, renamed) = ran_all(t, bridge_rename(h, name));
    match renamed {
        Err(stop) => abandon_run(h, name, stop, t1),
        Ok(()) => {
            let (t2, started) = ran_all(t1, bridge_start(h));
            match started {
                Err(Stop::Pending) => (h, t2, Err(Stop::Pending)),
                Err(Stop::Failed(e)) => {
                    let (h3, t3, why) = rollback_bridge_run(h, e, t2);
                    (h3, t3, Err(why))
                },
                Ok(()) => (h, t2, Ok(true)),
            }
        },
    }
}

/// Records a bridge that is set up under its provisional name, and finishes it.
pub open spec fn record_bridge_run(h: HostView, name: Seq<char>, id: Seq<char>, t: Trace) -> (
    HostView,
    Trace,
    HostOutcome<bool>,
) {
    let (h1, t1, recorded) = update_run(h, bridge_made(h, id), t);
    match recorded {
        Err(stop) => abandon_run(h1, name, stop, t1),
        Ok(()) => finish_bridge_run(h1, name, t1),
    }
}

/// Makes the bridge: under a provisional name first, which it keeps until its record is durable.
pub open spec fn make_bridge_run(h: HostView, name: Seq<char>, t: Trace) -> (
    HostView,
    Trace,
    HostOutcome<bool>,
) {
    let t1 = t.after(EffectView::Run(named_bridge_add_cmd(name)));
    match ran(t) {
        Err(stop) => (h, t1, Err(stop)),
        Ok(()) => {
            let (t2, set_up) = setup_run(h, name, t1);
            match set_up {
                Err(stop) => abandon_run(h, name, stop, t2),
                Ok(()) => {
                    let t3 = t2.after(EffectView::Query(link_detail_cmd(name)));
                    let foreign = Stop::Failed(HostNetworkError::ForeignInterface);
                    match described(t2) {
                        Err(stop) => (h, t3, Err(stop)),
                        Ok(None) => abandon_run(h, name, foreign, t3),
                        Ok(Some(output)) => match identity(output) {
                            Some(id) => if is_bridge(output) {
                                record_bridge_run(h, name, id, t3)
                            } else {
                                abandon_run(h, name, foreign, t3)
                            },
                            None => abandon_run(h, name, foreign, t3),
                        },
                    }
                },
            }
        },
    }
}

/// Sees to it that the bridge is there. The result tells whether it was made.
pub open spec fn ensure_bridge_run(h: HostView, name: Seq<char>, t: Trace) -> (
    HostView,
    Trace,
    HostOutcome<bool>,
) {
    let t1 = t.after(EffectView::Query(link_show_cmd(h.config.bridge_name)));
    match there(t) {
        Err(stop) => (h, t1, Err(stop)),
        Ok(true) => {
            let (t2, r) = adopt_run(h, t1);
            (h, t2, r)
        },
        Ok(false) => make_bridge_run(h, name, t1),
    }
}

impl HostNetworkManager {
    fn adopt_bridge(&self, session: &mut Session) -> (r: HostOutcome<bool>)
        ensures
            (final(session)@, r) == adopt_run(self@, old(session)@),
    {
        let bridge = self.config.bridge_name.as_str();
        match session.query(link_detail(bridge), HostNetworkError::CommandFailed) {
            Err(stop) => return Err(stop),
            Ok((success, output)) => {
                if !success || !interface_output_is_bridge(output.as_str()) || (
                self.ownership.is_some() && !self.bridge_is_owned_output(output.as_str())) {
                    return Err(Stop::Failed(HostNetworkError::ForeignInterface));
                }
            },
        }
        match run_one(link_up(bridge), session) {
            Err(stop) => return Err(stop),
            Ok(()) => {},
        }
        match &self.config.uplink {
            None => Ok(false),
            Some(uplink) => match session.query(
                link_line(uplink.as_str()),
                HostNetworkError::CommandFailed,
            ) {
                Err(stop) => Err(stop),
                Ok((success, line)) => {
                    if !success {
                        return Err(Stop::Failed(HostNetworkError::CommandFailed));
                    }
                    if !interface_is_attached_to(line.as_str(), bridge) {
                        return Err(Stop::Failed(HostNetworkError::ForeignInterface));
                    }
                    Ok(false)
                },
            },
        }
    }

    fn set_up_bridge(&self, name: &str, session: &mut Session) -> (r: HostOutcome<()>)
        ensures
            (final(session)@, r) == setup_run(self@, name@, old(session)@),
    {
        let commands = if self.set_stable_bridge_mac {
            match HostNetworkManager::deterministic_bridge_mac(self.config.bridge_name.as_str()) {
                Err(e) => return Err(Stop::Failed(e)),
                Ok(mac) => Commands::none().push(link_address(name, mac.as_str())).push(
                    link_up(name),
                ),
            }
        } else {
            Commands::none().push(link_up(name))
        };
        session.run_all(
            &commands,
            HostNetworkError::CommandFailed,
            HostNetworkError::CommandFailed,
        )
    }

    fn abandon_bridge(&self, name: &str, stop: Stop<HostNetworkError>, session: &mut Session) -> (r:
        HostOutcome<bool>)
        ensures
            (self@, final(session)@, r) == abandon_run(self@, name@, stop, old(session)@),
    {
        match stop {
            Stop::Pending => Err(stop),
            Stop::Failed(e) => Err(self.rollback_provisional_bridge(name, e, session)),
        }
    }

    fn finish_bridge(&mut self, name: &str, session: &mut Session) -> (r: HostOutcome<bool>)
        ensures
            (final(self)@, final(session)@, r) == finish_bridge_run(
                old(self)@,
                name@,
                old(session)@,
            ),
    {
        let bridge = self.config.bridge_name.clone();
        let renaming = Commands::none().push(link_down(name)).push(
            link_rename(name, bridge.as_str()),
        );
        let renamed: HostOutcome<()> = session.run_all(
            &renaming,
            HostNetworkError::CommandFailed,
            HostNetworkError::CommandFailed,
        );
        match renamed {
            Err(stop) => return self.abandon_bridge(name, stop, session),
            Ok(()) => {},
        }
        let mut start = Commands::none().push(link_up(bridge.as_str()));
        match &self.config.uplink {
            None => {},
            Some(uplink) => {
                start = start.push(link_master(uplink.as_str(), bridge.as_str()));
            },
        }
        let started: HostOutcome<()> = session.run_all(
            &start,
            HostNetworkError::CommandFailed,
            HostNetworkError::CommandFailed,
        );
        match started {
            Err(Stop::Pending) => Err(Stop::Pending),
            Err(Stop::Failed(e)) => Err(self.rollback_bridge(e, session)),
            Ok(()) => Ok(true),
        }
    }

    fn record_bridge(&mut self, name: &str, id: &str, session: &mut Session) -> (r: HostOutcome<
        bool,
    >)
        ensures
            (final(self)@, final(session)@, r) == record_bridge_run(
                old(self)@,
                name@,
                id@,
                old(session)@,
            ),
    {
        let change: Option<Result<NetworkOwnershipManifest, HostNetworkError>> = match
            &self.ownership {
            None => None,
            Some(m) => Some(m.with_bridge(&self.config, id)),
        };
        match self.update_ownership(change, session) {
            Err(stop) => self.abandon_bridge(name, stop, session),
            Ok(()) => self.finish_bridge(name, session),
        }
    }

    fn make_bridge(&mut self, name: &str, session: &mut Session) -> (r: HostOutcome<bool>)
        ensures
            (final(self)@, final(session)@, r) == make_bridge_run(
                old(self)@,
                name@,
                old(session)@,
            ),
    {
        match run_one(named_bridge_add(name), session) {
            Err(stop) => return Err(stop),
            Ok(()) => {},
        }
        match self.set_up_bridge(name, session) {
            Err(stop) => return self.abandon_bridge(name, stop, session),
            Ok(()) => {},
        }
        let foreign: Stop<HostNetworkError> = Stop::Failed(HostNetworkError::ForeignInterface);
        match describe(name, session) {
            Err(stop) => Err(stop),
            Ok(None) => self.abandon_bridge(name, foreign, session),
            Ok(Some(output)) => {
                if !interface_output_is_bridge(output.as_str()) {
                    return self.abandon_bridge(name, foreign, session);
                }
                match interface_identity(output.as_str()) {
                    None => self.abandon_bridge(name, foreign, session),
                    Some(id) => self.record_bridge(name, id.as_str(), session),
                }
            },
        }
    }

    /// Performs [`ensure_bridge_run`].
    pub fn ensure_bridge_with_ownership(&mut self, provisional: &str, session: &mut Session) -> (r:
        HostOutcome<bool>)
        ensures
            (final(self)@, final(session)@, r) == ensure_bridge_run(
                old(self)@,
                provisional@,
                old(session)@,
            ),
    {
        match link_exists(self.config.bridge_name.as_str(), session) {
            Err(stop) => Err(stop),
            Ok(true) => self.adopt_bridge(session),
            Ok(false) => self.make_bridge(provisional, session),
        }
    }

    /// Sees to it that the bridge is there.
    pub fn ensure_bridge(&mut self, provisional: &str, session: &mut Session) -> (r: HostOutcome<()>)
        ensures
            ({
                let (h, t, done) = ensure_bridge_run(old(self)@, provisional@, old(session)@);
                &&& final(self)@ == h
                &&& final(session)@ == t
                &&& r == match done {
                    Ok(_) => Ok(()),
                    Err(stop) => Err(stop),
                }
            }),
    {
        match self.ensure_bridge_with_ownership(provisional, session) {
            Ok(_) => Ok(()),
            Err(stop) => Err(stop),
        }
    }
}

// ---------------------------------------------------------------------------
// Removing the bridge
// ---------------------------------------------------------------------------

/// Removes the bridge. It has to be recorded, made by the manager, without a gateway and without
/// tap devices; a link of its name has to have the recorded identity.
pub open spec fn delete_bridge_run(h: HostView, t: Trace) -> (HostView, Trace, HostOutcome<()>) {
    let foreign = Err(Stop::Failed(HostNetworkError::ForeignInterface));
    match h.bridge() {
        None => (h, t, foreign),
        Some(b) => if !b.created_by_o3k || b.gateway is Some || h.taps().len() != 0 {
            (h, t, Err(Stop::Failed(HostNetworkError::OwnershipConflict)))
        } else {
            let t1 = t.after(EffectView::Query(link_show_cmd(h.config.bridge_name)));
            match there(t) {
                Err(stop) => (h, t1, Err(stop)),
                Ok(false) => update_run(h, bridge_removed(h), t1),
                Ok(true) => {
                    let t2 = t1.after(
                        EffectView::Query(link_detail_cmd(h.config.bridge_name)),
                    );
                    match queried(t1.reply(), HostNetworkError::CommandFailed) {
                        Err(stop) => (h, t2, Err(stop)),
                        Ok((success, output)) => if !success || !is_bridge(output)
                            || !h.owns_bridge(output) {
                            (h, t2, foreign)
                        } else {
                            let t3 = t2.after(
                                EffectView::Run(link_del_dev_cmd(h.config.bridge_name)),
                            );
                            match ran(t2) {
                                Err(stop) => (h, t3, Err(stop)),
                                Ok(()) => update_run(h, bridge_removed(h), t3),
                            }
                        },
                    }
                },
            }
        },
    }
}

impl HostNetworkManager {
    fn bridge_is_free(&self) -> (r: Result<(), HostNetworkError>)
        ensures
            r == match self@.bridge() {
                None => Err::<(), HostNetworkError>(HostNetworkError::ForeignInterface),
                Some(b) => if !b.created_by_o3k || b.gateway is Some || self@.taps().len() != 0 {
                    Err(HostNetworkError::OwnershipConflict)
                } else {
                    Ok(())
                },
            },
    {
        match &self.ownership {
            None => Err(HostNetworkError::ForeignInterface),
            Some(m) => match &m.bridge {
                None => Err(HostNetworkError::ForeignInterface),
                Some(b) => if !b.created_by_o3k || b.gateway.is_some()
                    || !self.recorded_taps_empty() {
                    Err(HostNetworkError::OwnershipConflict)
                } else {
                    Ok(())
                },
            },
        }
    }

    /// Performs [`delete_bridge_run`].
    pub fn delete_bridge(&mut self, session: &mut Session) -> (r: HostOutcome<()>)
        ensures
            (final(self)@, final(session)@, r) == delete_bridge_run(old(self)@, old(session)@),
    {
        match self.bridge_is_free() {
            Err(e) => return Err(Stop::Failed(e)),
            Ok(()) => {},
        }
        match link_exists(self.config.bridge_name.as_str(), session) {
            Err(stop) => return Err(stop),
            Ok(false) => return self.clear_bridge_ownership(session),
            Ok(true) => {},
        }
        match session.query(
            link_detail(self.config.bridge_name.as_str()),
            HostNetworkError::CommandFailed,
        ) {
            Err(stop) => return Err(stop),
            Ok((success, output)) => {
                if !success || !interface_output_is_bridge(output.as_str())
                    || !self.bridge_is_owned_output(output.as_str()) {
                    return Err(Stop::Failed(HostNetworkError::ForeignInterface));
                }
            },
        }
        match run_one(link_del_dev(self.config.bridge_name.as_str()), session) {
            Err(stop) => return Err(stop),
            Ok(()) => {},
        }
        self.clear_bridge_ownership(session)
    }
}

// ---------------------------------------------------------------------------
// The gateway
// ---------------------------------------------------------------------------

/// A gateway's address with the length of its prefix.
pub open spec fn gateway_text(g: GatewaySpec) -> Seq<char> {
    ipv4_text(g.address) + "/"@ + decimal(g.prefix_len as nat)
}

fn gateway_text_of(g: GatewaySpec) -> (r: String)
    ensures
        r@ == gateway_text(g),
{
    let address = ipv4_of(g.address);
    let len = decimal_of(g.prefix_len as u128);
    join3(address.as_str(), "/", len.as_str())
}

/// Asks whether the live bridge is the recorded one.
pub open spec fn live_run(h: HostView, t: Trace) -> (Trace, HostOutcome<bool>) {
    (
        t.after(EffectView::Query(link_detail_cmd(h.config.bridge_name))),
        match queried(t.reply(), HostNetworkError::CommandFailed) {
            Err(stop) => Err(stop),
            Ok((success, output)) => Ok(success && is_bridge(output) && h.owns_bridge(output)),
        },
    )
}

/// The change of the record when the gateway was added.
pub open spec fn gateway_added(h: HostView, g: GatewaySpec) -> Option<
    Result<NetworkOwnershipManifestView, HostNetworkError>,
> {
    match h.ownership {
        Some(m) => Some(with_gateway(h.config, m, g)),
        None => None,
    }
}

/// The change of the record when the gateway was taken away.
pub open spec fn gateway_removed(h: HostView) -> Option<
    Result<NetworkOwnershipManifestView, HostNetworkError>,
> {
    match h.ownership {
        Some(m) => Some(Ok(without_gateway(m))),
        None => None,
    }
}

/// Reports a failure; a bridge that this operation made is removed first.
pub open spec fn give_up_run(h: HostView, made: bool, stop: Stop<HostNetworkError>, t: Trace) -> (
    HostView,
    Trace,
    Stop<HostNetworkError>,
) {
    match stop {
        Stop::Pending => (h, t, stop),
        Stop::Failed(e) => if made {
            rollback_bridge_run(h, e, t)
        } else {
            (h, t, stop)
        },
    }
}

/// Gives the bridge the gateway address, and records it.
pub open spec fn add_gateway_run(h: HostView, g: GatewaySpec, made: bool, t: Trace) -> (
    HostView,
    Trace,
    HostOutcome<()>,
) {
    let address = gateway_text(g);
    let t1 = t.after(EffectView::Run(address_replace_cmd(address, h.config.bridge_name)));
    match ran(t) {
        Err(stop) => {
            let (h2, t2, why) = give_up_run(h, made, stop, t1);
            (h2, t2, Err(why))
        },
        Ok(()) => {
            let (h2, t2, recorded) = update_run(h, gateway_added(h, g), t1);
            match recorded {
                Ok(()) => (h2, t2, Ok(())),
                Err(Stop::Pending) => (h2, t2, Err(Stop::Pending)),
                Err(stop) => {
                    let t3 = t2.after(
                        EffectView::Run(address_del_cmd(address, h.config.bridge_name)),
                    );
                    match undone(ran(t2)) {
                        Err(why) => (h2, t3, Err(why)),
                        Ok(()) => {
                            let (h4, t4, why) = give_up_run(h2, made, stop, t3);
                            (h4, t4, Err(why))
                        },
                    }
                },
            }
        },
    }
}

/// Sees to it that the bridge has a gateway address. Only the bridge that the manager made gets
/// one, and only the recorded one where one is recorded.
pub open spec fn ensure_gateway_run(h: HostView, name: Seq<char>, g: GatewaySpec, t: Trace) -> (
    HostView,
    Trace,
    HostOutcome<()>,
) {
    if g.prefix_len > 30 {
        (h, t, Err(Stop::Failed(HostNetworkError::InvalidConfiguration)))
    } else if h.gateway() matches Some(known) && known != g {
        (h, t, Err(Stop::Failed(HostNetworkError::OwnershipConflict)))
    } else {
        let (h1, t1, made) = ensure_bridge_run(h, name, t);
        match made {
            Err(stop) => (h1, t1, Err(stop)),
            Ok(true) => add_gateway_run(h1, g, true, t1),
            Ok(false) => {
                let (t2, live) = live_run(h1, t1);
                match live {
                    Err(stop) => (h1, t2, Err(stop)),
                    Ok(false) => (
                        h1,
                        t2,
                        Err(Stop::Failed(HostNetworkError::ForeignInterface)),
                    ),
                    Ok(true) => add_gateway_run(h1, g, false, t2),
                }
            },
        }
    }
}

/// Takes the recorded gateway address from the bridge. Where none is recorded nothing is done.
pub open spec fn remove_gateway_run(h: HostView, g: GatewaySpec, t: Trace) -> (
    HostView,
    Trace,
    HostOutcome<()>,
) {
    if g.prefix_len > 30 {
        (h, t, Err(Stop::Failed(HostNetworkError::InvalidConfiguration)))
    } else {
        match h.gateway() {
            None => (h, t, Ok(())),
            Some(known) => if known != g {
                (h, t, Err(Stop::Failed(HostNetworkError::OwnershipConflict)))
            } else {
                let (t1, live) = live_run(h, t);
                match live {
                    Err(stop) => (h, t1, Err(stop)),
                    Ok(false) => (
                        h,
                        t1,
                        Err(Stop::Failed(HostNetworkError::ForeignInterface)),
                    ),
                    Ok(true) => {
                        let t2 = t1.after(
                            EffectView::Run(
                                address_del_cmd(gateway_text(g), h.config.bridge_name),
                            ),
                        );
                        match ran(t1) {
                            Err(stop) => (h, t2, Err(stop)),
                            Ok(()) => update_run(h, gateway_removed(h), t2),
                        }
                    },
                }
            },
        }
    }
}

/// Removes the gateway and the bridge where no tap device is recorded.
pub open spec fn cleanup_run(h: HostView, t: Trace) -> (HostView, Trace, HostOutcome<()>) {
    if h.taps().len() != 0 {
        (h, t, Ok(()))
    } else {
        let (h1, t1, removed) = match h.gateway() {
            Some(g) => remove_gateway_run(h, g, t),
            None => (h, t, Ok(())),
        };
        match removed {
            Err(stop) => (h1, t1, Err(stop)),
            Ok(()) => if h1.bridge() is Some {
                delete_bridge_run(h1, t1)
            } else {
                (h1, t1, Ok(()))
            },
        }
    }
}

impl HostNetworkManager {
    fn bridge_is_owned_live(&self, session: &mut Session) -> (r: HostOutcome<bool>)
        ensures
            (final(session)@, r) == live_run(self@, old(session)@),
    {
        match session.query(
            link_detail(self.config.bridge_name.as_str()),
            HostNetworkError::CommandFailed,
        ) {
            Err(stop) => Err(stop),
            Ok((success, output)) => Ok(
                success && interface_output_is_bridge(output.as_str())
                    && self.bridge_is_owned_output(output.as_str()),
            ),
        }
    }

    /// Performs [`give_up_run`].
    pub(crate) fn give_up(
        &mut self,
        made: bool,
        stop: Stop<HostNetworkError>,
        session: &mut Session,
    ) -> (r: Stop<HostNetworkError>)
        ensures
            (final(self)@, final(session)@, r) == give_up_run(
                old(self)@,
                made,
                stop,
                old(session)@,
            ),
    {
        match stop {
            Stop::Pending => stop,
            Stop::Failed(e) => if made {
                self.rollback_bridge(e, session)
            } else {
                stop
            },
        }
    }

    fn add_gateway(&mut self, gateway: GatewaySpec, made: bool, session: &mut Session) -> (r:
        HostOutcome<()>)
        ensures
            (final(self)@, final(session)@, r) == add_gateway_run(
                old(self)@,
                gateway,
                made,
                old(session)@,
            ),
    {
        let address = gateway_text_of(gateway);
        let bridge = self.config.bridge_name.clone();
        match run_one(address_replace(address.as_str(), bridge.as_str()), session) {
            Err(stop) => return Err(self.give_up(made, stop, session)),
            Ok(()) => {},
        }
        let change: Option<Result<NetworkOwnershipManifest, HostNetworkError>> = match
            &self.ownership {
            None => None,
            Some(m) => Some(m.with_gateway(&self.config, gateway)),
        };
        match self.update_ownership(change, session) {
            Ok(()) => Ok(()),
            Err(Stop::Pending) => Err(Stop::Pending),
            Err(stop) => {
                match as_undone(
                    run_one(address_del(address.as_str(), bridge.as_str()), session),
                ) {
                    Err(why) => Err(why),
                    Ok(()) => Err(self.give_up(made, stop, session)),
                }
            },
        }
    }

    /// Performs [`ensure_gateway_run`].
    pub fn ensure_gateway(
        &mut self,
        gateway: GatewaySpec,
        provisional: &str,
        session: &mut Session,
    ) -> (r: HostOutcome<()>)
        ensures
            (final(self)@, final(session)@, r) == ensure_gateway_run(
                old(self)@,
                provisional@,
                gateway,
                old(session)@,
            ),
    {
        match validate_gateway(gateway) {
            Err(e) => return Err(Stop::Failed(e)),
            Ok(()) => {},
        }
        match self.recorded_gateway() {
            Some(known) => {
                if known != gateway {
                    return Err(Stop::Failed(HostNetworkError::OwnershipConflict));
                }
            },
            None => {},
        }
        match self.ensure_bridge_with_ownership(provisional, session) {
            Err(stop) => Err(stop),
            Ok(true) => self.add_gateway(gateway, true, session),
            Ok(false) => match self.bridge_is_owned_live(session) {
                Err(stop) => Err(stop),
                Ok(false) => Err(Stop::Failed(HostNetworkError::ForeignInterface)),
                Ok(true) => self.add_gateway(gateway, false, session),
            },
        }
    }

    /// Performs [`remove_gateway_run`].
    pub fn remove_gateway(&mut self, gateway: GatewaySpec, session: &mut Session) -> (r: HostOutcome<
        (),
    >)
        ensures
            (final(self)@, final(session)@, r) == remove_gateway_run(
                old(self)@,
                gateway,
                old(session)@,
            ),
    {
        match validate_gateway(gateway) {
            Err(e) => return Err(Stop::Failed(e)),
            Ok(()) => {},
        }
        match self.recorded_gateway() {
            None => return Ok(()),
            Some(known) => {
                if known != gateway {
                    return Err(Stop::Failed(HostNetworkError::OwnershipConflict));
                }
            },
        }
        match self.bridge_is_owned_live(session) {
            Err(stop) => return Err(stop),
            Ok(false) => return Err(Stop::Failed(HostNetworkError::ForeignInterface)),
            Ok(true) => {},
        }
        let address = gateway_text_of(gateway);
        match run_one(address_del(address.as_str(), self.config.bridge_name.as_str()), session) {
            Err(stop) => return Err(stop),
            Ok(()) => {},
        }
        let change: Option<Result<NetworkOwnershipManifest, HostNetworkError>> = match
            &self.ownership {
            None => None,
            Some(m) => Some(Ok(m.without_gateway())),
        };
        self.update_ownership(change, session)
    }

    /// Performs [`cleanup_run`].
    pub fn cleanup_if_unused(&mut self, session: &mut Session) -> (r: HostOutcome<()>)
        ensures
            (final(self)@, final(session)@, r) == cleanup_run(old(self)@, old(session)@),
    {
        if !self.recorded_taps_empty() {
            return Ok(());
        }
        let removed: HostOutcome<()> = match self.recorded_gateway() {
            Some(gateway) => self.remove_gateway(gateway, session),
            None => Ok(()),
        };
        match removed {
            Err(stop) => return Err(stop),
            Ok(()) => {},
        }
        if self.has_bridge() {
            self.delete_bridge(session)
        } else {
            Ok(())
        }
    }
}

} // verus!
