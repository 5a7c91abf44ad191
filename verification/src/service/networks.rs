//! Networks.
use super::access::{found, halt, must_find};
use super::calls::{
    done, heard, id_in, many, network_in, networks_in, one, reservation_in, tried, unit,
    updated_network_in, Answer, Log, NetworkService, StoreCall, StoreCallView,
};
use super::errors::{map_failure, map_store_error, NetworkError, NetworkErrorView};
use super::records::{
    CanonicalNetworkRecord, CanonicalNetworkRecordView, NetworkRecord, NetworkRecordView,
};
use super::rules::{canonical_network_projection, network_of};
use crate::identity::{id_text, id_text_of};
use crate::model::{view_opt, views, Model};
use crate::session::Stop;
use crate::text::{is_blank, same, trim};
use vstd::prelude::*;
use vstd::string::StringExecFns;

verus! {

/// Whether one of the networks has a name.
pub open spec fn name_taken(networks: Seq<CanonicalNetworkRecordView>, name: Seq<char>) -> bool {
    exists|i: int| 0 <= i < networks.len() && (#[trigger] networks[i]).name == name
}

fn is_name_taken(networks: &Vec<CanonicalNetworkRecord>, name: &str) -> (r: bool)
    ensures
        r == name_taken(views(networks@), name@),
{
    let ghost all = views(networks@);
    for i in 0..networks.len()
        invariant
            all == views(networks@),
            forall|k: int| 0 <= k < i ==> (#[trigger] all[k]).name != name@,
    {
        assert(all[i as int] == networks@[i as int]@);
        if same(networks[i].name.as_str(), name) {
            return true;
        }
    }
    false
}

/// The record of a new network.
pub open spec fn new_network(id: u128, project_id: Seq<char>, name: Seq<char>)
    -> CanonicalNetworkRecordView {
    CanonicalNetworkRecordView {
        id,
        project_id,
        name,
        admin_state_up: true,
        generation: 1,
        state: "active"@,
    }
}

fn new_network_of(id: u128, project_id: &str, name: &str) -> (r: CanonicalNetworkRecord)
    ensures
        r@ == new_network(id, project_id@, name@),
{
    CanonicalNetworkRecord {
        id,
        project_id: project_id.to_owned(),
        name: name.to_owned(),
        admin_state_up: true,
        generation: 1,
        state: "active".to_owned(),
    }
}

/// Finds a free name and an identifier for a new network.
pub open spec fn name_network_run(project_id: Seq<char>, name: Seq<char>, t: Log) -> (
    Log,
    Answer<u128>,
) {
    let t1 = t.after(StoreCallView::ListNetworks(project_id));
    match networks_in(t.reply()) {
        Err(stop) => (t1, Err(stop)),
        Ok(networks) => if name_taken(networks, name) {
            (t1, halt(NetworkErrorView::Conflict))
        } else {
            (t1.after(StoreCallView::NewId), id_in(t1.reply()))
        },
    }
}

/// Makes a network, with no realm, pool or endpoint in it. No two networks of a project have the
/// same name.
pub open spec fn create_canonical_network_run(project_id: Seq<char>, name: Seq<char>, t: Log) -> (
    Log,
    Answer<CanonicalNetworkRecordView>,
) {
    if trim(project_id).len() == 0 || trim(name).len() == 0 {
        (t, halt(NetworkErrorView::InvalidRequest))
    } else {
        let (t1, named) = name_network_run(project_id, name, t);
        match named {
            Err(stop) => (t1, Err(stop)),
            Ok(id) => {
                let network = new_network(id, project_id, name);
                let t2 = t1.after(StoreCallView::InsertCanonicalNetwork(network));
                match done(t1.reply()) {
                    Err(stop) => (t2, Err(stop)),
                    Ok(()) => (t2, Ok(network)),
                }
            },
        }
    }
}

/// Finds a network.
pub open spec fn get_canonical_network_run(project_id: Seq<char>, id: u128, t: Log) -> (
    Log,
    Answer<CanonicalNetworkRecordView>,
) {
    (t.after(StoreCallView::GetNetwork(project_id, id)), found(network_in(t.reply())))
}

/// The operation under which a quota is set aside for a new resource.
pub open spec fn creation(kind: Seq<char>, project_id: Seq<char>, id: u128) -> Seq<char> {
    kind + project_id + ":"@ + id_text(id)
}

pub(crate) fn creation_of(kind: &str, project_id: &str, id: u128) -> (r: String)
    ensures
        r@ == creation(kind@, project_id@, id),
{
    let mut out = kind.to_owned();
    out.append(project_id);
    out.append(":");
    out.append(id_text_of(id).as_str());
    out
}

/// What the operations of new networks begin with.
pub open spec fn network_creation() -> Seq<char> {
    "o3k:network:create:"@
}

/// A network as clients see it when it is new.
pub open spec fn new_client_network(id: u128, project_id: Seq<char>, name: Seq<char>)
    -> NetworkRecordView {
    NetworkRecordView { id, name, project_id, status: "ACTIVE"@ }
}

/// Gives back what was set aside, and reports a failure.
pub open spec fn release_run<T>(reservation: Seq<char>, e: NetworkErrorView, t: Log) -> (
    Log,
    Answer<T>,
) {
    let t1 = t.after(StoreCallView::ReleaseReservation(reservation));
    match heard(t.reply()) {
        Err(stop) => (t1, Err(stop)),
        Ok(()) => (t1, halt(e)),
    }
}

/// Uses what was set aside, and reports a success.
pub open spec fn commit_run<T>(reservation: Seq<char>, v: T, t: Log) -> (Log, Answer<T>) {
    let t1 = t.after(StoreCallView::CommitReservation(reservation));
    match heard(t.reply()) {
        Err(stop) => (t1, Err(stop)),
        Ok(()) => (t1, Ok(v)),
    }
}

/// Stores a new network and what clients see of it. Where the second fails, the first is undone.
pub open spec fn store_network_run(
    id: u128,
    project_id: Seq<char>,
    name: Seq<char>,
    reservation: Seq<char>,
    t: Log,
) -> (Log, Answer<NetworkRecordView>) {
    let t1 = t.after(
        StoreCallView::InsertCanonicalNetwork(new_network(id, project_id, name)),
    );
    match tried(t.reply()) {
        Err(stop) => (t1, Err(stop)),
        Ok(Err(f)) => release_run(reservation, map_failure(f), t1),
        Ok(Ok(())) => {
            let network = new_client_network(id, project_id, name);
            let t2 = t1.after(StoreCallView::InsertNetwork(network));
            match tried(t1.reply()) {
                Err(stop) => (t2, Err(stop)),
                Ok(Ok(())) => commit_run(reservation, network, t2),
                Ok(Err(f)) => {
                    let t3 = t2.after(StoreCallView::DeleteCanonicalNetwork(project_id, id));
                    match heard(t2.reply()) {
                        Err(stop) => (t3, Err(stop)),
                        Ok(()) => release_run(reservation, map_failure(f), t3),
                    }
                },
            }
        },
    }
}

/// Makes a network within the quota of its project.
pub open spec fn create_network_run(project_id: Seq<char>, name: Seq<char>, t: Log) -> (
    Log,
    Answer<NetworkRecordView>,
) {
    if trim(name).len() == 0 {
        (t, halt(NetworkErrorView::InvalidRequest))
    } else {
        let (t1, named) = name_network_run(project_id, name, t);
        match named {
            Err(stop) => (t1, Err(stop)),
            Ok(id) => {
                let t2 = t1.after(
                    StoreCallView::ReserveQuota(
                        project_id,
                        creation(network_creation(), project_id, id),
                        "networks"@,
                    ),
                );
                match reservation_in(t1.reply()) {
                    Err(stop) => (t2, Err(stop)),
                    Ok(reservation) => store_network_run(id, project_id, name, reservation, t2),
                }
            },
        }
    }
}

/// Removes a network, what clients see of it and what was set aside for it.
pub open spec fn delete_network_run(project_id: Seq<char>, id: u128, t: Log) -> (Log, Answer<()>) {
    let t1 = t.after(StoreCallView::DeleteCanonicalNetwork(project_id, id));
    match done(t.reply()) {
        Err(stop) => (t1, Err(stop)),
        Ok(()) => {
            let t2 = t1.after(StoreCallView::DeleteNetwork(project_id, id));
            match heard(t1.reply()) {
                Err(stop) => (t2, Err(stop)),
                Ok(()) => (
                    t2.after(
                        StoreCallView::ReleaseForOperation(
                            creation(network_creation(), project_id, id),
                        ),
                    ),
                    heard(t2.reply()),
                ),
            }
        },
    }
}

/// Networks as clients see them.
pub open spec fn networks_of(a: Answer<Seq<CanonicalNetworkRecordView>>) -> Answer<
    Seq<NetworkRecordView>,
> {
    match a {
        Err(stop) => Err(stop),
        Ok(networks) => Ok(networks.map_values(|n: CanonicalNetworkRecordView| network_of(n))),
    }
}

/// A network as clients see it, where there is one.
pub open spec fn shown(a: Answer<CanonicalNetworkRecordView>) -> Answer<NetworkRecordView> {
    match a {
        Err(stop) => Err(stop),
        Ok(network) => Ok(network_of(network)),
    }
}

/// The call that changes the name or the administrative state of a network; what is not given
/// stays.
pub open spec fn network_change(
    project_id: Seq<char>,
    id: u128,
    current: CanonicalNetworkRecordView,
    name: Option<Seq<char>>,
    admin_state_up: Option<bool>,
) -> StoreCallView {
    StoreCallView::UpdateCanonicalNetwork(
        project_id,
        id,
        current.generation,
        match name {
            Some(n) => n,
            None => current.name,
        },
        match admin_state_up {
            Some(up) => up,
            None => current.admin_state_up,
        },
    )
}

/// Changes the name or the administrative state of a network.
pub open spec fn change_network_run(
    project_id: Seq<char>,
    id: u128,
    name: Option<Seq<char>>,
    admin_state_up: Option<bool>,
    t: Log,
) -> (Log, Answer<NetworkRecordView>) {
    let t1 = t.after(StoreCallView::GetNetwork(project_id, id));
    match found(network_in(t.reply())) {
        Err(stop) => (t1, Err(stop)),
        Ok(current) => (
            t1.after(network_change(project_id, id, current, name, admin_state_up)),
            shown(updated_network_in(t1.reply())),
        ),
    }
}

impl NetworkService {
    fn name_network(&mut self, project_id: &str, name: &str) -> (r: Result<
        u128,
        Stop<NetworkError>,
    >)
        ensures
            (final(self)@, one(r)) == name_network_run(project_id@, name@, old(self)@),
    {
        let networks = match self.ask_networks(StoreCall::ListNetworks(project_id.to_owned())) {
            Err(stop) => return Err(stop),
            Ok(networks) => networks,
        };
        if is_name_taken(&networks, name) {
            return Err(Stop::Failed(NetworkError::Conflict));
        }
        self.ask_id(StoreCall::NewId)
    }

    /// Performs [`create_canonical_network_run`].
    pub fn create_canonical_network_for_project(&mut self, project_id: &str, name: String) -> (r:
        Result<CanonicalNetworkRecord, Stop<NetworkError>>)
        ensures
            (final(self)@, one(r)) == create_canonical_network_run(
                project_id@,
                name@,
                old(self)@,
            ),
    {
        if is_blank(project_id) || is_blank(name.as_str()) {
            return Err(Stop::Failed(NetworkError::InvalidRequest));
        }
        let id: u128 = match self.name_network(project_id, name.as_str()) {
            Err(stop) => return Err(stop),
            Ok(id) => id,
        };
        let network = new_network_of(id, project_id, name.as_str());
        match self.perform(StoreCall::InsertCanonicalNetwork(network.copy())) {
            Err(stop) => Err(stop),
            Ok(()) => Ok(network),
        }
    }

    /// Performs [`get_canonical_network_run`].
    pub fn get_canonical_network_for_project(&mut self, project_id: &str, id: u128) -> (r: Result<
        CanonicalNetworkRecord,
        Stop<NetworkError>,
    >)
        ensures
            (final(self)@, one(r)) == get_canonical_network_run(project_id@, id, old(self)@),
    {
        must_find(self.ask_network(StoreCall::GetNetwork(project_id.to_owned(), id)))
    }

    /// Lists the networks of a project.
    pub fn list_canonical_networks_for_project(&mut self, project_id: &str) -> (r: Result<
        Vec<CanonicalNetworkRecord>,
        Stop<NetworkError>,
    >)
        ensures
            final(self)@ == old(self)@.after(StoreCallView::ListNetworks(project_id@)),
            many(r) == networks_in(old(self)@.reply()),
    {
        self.ask_networks(StoreCall::ListNetworks(project_id.to_owned()))
    }

    /// Removes a network.
    pub fn delete_canonical_network_for_project(&mut self, project_id: &str, id: u128) -> (r:
        Result<(), Stop<NetworkError>>)
        ensures
            final(self)@ == old(self)@.after(
                StoreCallView::DeleteCanonicalNetwork(project_id@, id),
            ),
            unit(r) == done(old(self)@.reply()),
    {
        self.perform(StoreCall::DeleteCanonicalNetwork(project_id.to_owned(), id))
    }

    /// Performs [`release_run`].
    pub(crate) fn release<T: View>(&mut self, reservation: String, e: NetworkError) -> (r: Result<
        T,
        Stop<NetworkError>,
    >)
        ensures
            (final(self)@, one(r)) == release_run::<T::V>(reservation@, e@, old(self)@),
    {
        match self.tell(StoreCall::ReleaseReservation(reservation)) {
            Err(stop) => Err(stop),
            Ok(()) => Err(Stop::Failed(e)),
        }
    }

    /// Performs [`commit_run`].
    pub(crate) fn commit<T: View>(&mut self, reservation: String, v: T) -> (r: Result<
        T,
        Stop<NetworkError>,
    >)
        ensures
            (final(self)@, one(r)) == commit_run(reservation@, v@, old(self)@),
    {
        match self.tell(StoreCall::CommitReservation(reservation)) {
            Err(stop) => Err(stop),
            Ok(()) => Ok(v),
        }
    }

    fn store_network(&mut self, id: u128, project_id: &str, name: &str, reservation: String) -> (r:
        Result<NetworkRecord, Stop<NetworkError>>)
        ensures
            (final(self)@, one(r)) == store_network_run(
                id,
                project_id@,
                name@,
                reservation@,
                old(self)@,
            ),
    {
        let canonical = new_network_of(id, project_id, name);
        match self.attempt(StoreCall::InsertCanonicalNetwork(canonical)) {
            Err(stop) => return Err(stop),
            Ok(Err(f)) => return self.release(reservation, map_store_error(&f)),
            Ok(Ok(())) => {},
        }
        let network = NetworkRecord {
            id,
            name: name.to_owned(),
            project_id: project_id.to_owned(),
            status: "ACTIVE".to_owned(),
        };
        match self.attempt(StoreCall::InsertNetwork(network.copy())) {
            Err(stop) => Err(stop),
            Ok(Ok(())) => self.commit(reservation, network),
            Ok(Err(f)) => {
                match self.tell(StoreCall::DeleteCanonicalNetwork(project_id.to_owned(), id)) {
                    Err(stop) => Err(stop),
                    Ok(()) => self.release(reservation, map_store_error(&f)),
                }
            },
        }
    }

    /// Performs [`create_network_run`].
    pub fn create_network_for_project(&mut self, project_id: &str, name: String) -> (r: Result<
        NetworkRecord,
        Stop<NetworkError>,
    >)
        ensures
            (final(self)@, one(r)) == create_network_run(project_id@, name@, old(self)@),
    {
        if is_blank(name.as_str()) {
            return Err(Stop::Failed(NetworkError::InvalidRequest));
        }
        let id: u128 = match self.name_network(project_id, name.as_str()) {
            Err(stop) => return Err(stop),
            Ok(id) => id,
        };
        let operation = creation_of("o3k:network:create:", project_id, id);
        match self.ask_reservation(
            StoreCall::ReserveQuota(project_id.to_owned(), operation, "networks".to_owned()),
        ) {
            Err(stop) => Err(stop),
            Ok(reservation) => self.store_network(id, project_id, name.as_str(), reservation),
        }
    }

    /// Performs [`delete_network_run`].
    pub fn delete_network_for_project(&mut self, project_id: &str, id: u128) -> (r: Result<
        (),
        Stop<NetworkError>,
    >)
        ensures
            (final(self)@, unit(r)) == delete_network_run(project_id@, id, old(self)@),
    {
        match self.perform(StoreCall::DeleteCanonicalNetwork(project_id.to_owned(), id)) {
            Err(stop) => return Err(stop),
            Ok(()) => {},
        }
        match self.tell(StoreCall::DeleteNetwork(project_id.to_owned(), id)) {
            Err(stop) => return Err(stop),
            Ok(()) => {},
        }
        let operation = creation_of("o3k:network:create:", project_id, id);
        self.tell(StoreCall::ReleaseForOperation(operation))
    }

    /// Lists the networks of a project as clients see them.
    pub fn list_networks_for_project(&mut self, project_id: &str) -> (r: Result<
        Vec<NetworkRecord>,
        Stop<NetworkError>,
    >)
        ensures
            final(self)@ == old(self)@.after(StoreCallView::ListNetworks(project_id@)),
            many(r) == networks_of(networks_in(old(self)@.reply())),
    {
        let networks = match self.ask_networks(StoreCall::ListNetworks(project_id.to_owned())) {
            Err(stop) => return Err(stop),
            Ok(networks) => networks,
        };
        let ghost all = views(networks@);
        let ghost f = |n: CanonicalNetworkRecordView| network_of(n);
        let mut out: Vec<NetworkRecord> = Vec::new();
        for i in 0..networks.len()
            invariant
                all == views(networks@),
                f == (|n: CanonicalNetworkRecordView| network_of(n)),
                views(out@) == all.map_values(f).take(i as int),
        {
            assert(all[i as int] == networks@[i as int]@);
            let ghost so_far = views(out@);
            out.push(canonical_network_projection(&networks[i]));
            assert(views(out@) =~= so_far.push(f(all[i as int])));
            assert(views(out@) =~= all.map_values(f).take(i + 1));
        }
        assert(views(out@) =~= all.map_values(f));
        Ok(out)
    }

    /// Finds a network as clients see it.
    pub fn get_network_for_project(&mut self, project_id: &str, id: u128) -> (r: Result<
        NetworkRecord,
        Stop<NetworkError>,
    >)
        ensures
            final(self)@ == old(self)@.after(StoreCallView::GetNetwork(project_id@, id)),
            one(r) == shown(found(network_in(old(self)@.reply()))),
    {
        match self.get_canonical_network_for_project(project_id, id) {
            Err(stop) => Err(stop),
            Ok(network) => Ok(canonical_network_projection(&network)),
        }
    }

    /// Finds a network whose realization a provider reports. Its record is not changed by it.
    pub fn mark_network_intent_active_for_project(&mut self, project_id: &str, network_id: u128)
        -> (r: Result<(), Stop<NetworkError>>)
        ensures
            final(self)@ == old(self)@.after(
                StoreCallView::GetNetwork(project_id@, network_id),
            ),
            unit(r) == match found(network_in(old(self)@.reply())) {
                Ok(_) => Ok(()),
                Err(stop) => Err(stop),
            },
    {
        match self.get_canonical_network_for_project(project_id, network_id) {
            Err(stop) => Err(stop),
            Ok(_) => Ok(()),
        }
    }

    /// Changes a network whose record is known, as [`change_network_run`] does.
    pub(crate) fn change_known_network(
        &mut self,
        project_id: &str,
        id: u128,
        current: CanonicalNetworkRecord,
        name: Option<String>,
        admin_state_up: Option<bool>,
    ) -> (r: Result<NetworkRecord, Stop<NetworkError>>)
        ensures
            final(self)@ == old(self)@.after(
                network_change(project_id@, id, current@, view_opt(name), admin_state_up),
            ),
            one(r) == shown(updated_network_in(old(self)@.reply())),
    {
        let new_name = match name {
            Some(n) => n,
            None => current.name,
        };
        let up: bool = match admin_state_up {
            Some(up) => up,
            None => current.admin_state_up,
        };
        match self.ask_updated_network(
            StoreCall::UpdateCanonicalNetwork(
                project_id.to_owned(),
                id,
                current.generation,
                new_name,
                up,
            ),
        ) {
            Err(stop) => Err(stop),
            Ok(network) => Ok(canonical_network_projection(&network)),
        }
    }
}

// ---------------------------------------------------------------------------
// Laws
// ---------------------------------------------------------------------------

/// Whether the last call settles a reservation: it is used where the request succeeded, and given
/// back where it failed.
pub open spec fn settles<T>(reservation: Seq<char>, step: (Log, Answer<T>)) -> bool {
    match step.1 {
        Ok(_) => step.0.issued.last() == StoreCallView::CommitReservation(reservation),
        Err(Stop::Failed(_)) => step.0.issued.last() == StoreCallView::ReleaseReservation(
            reservation,
        ),
        Err(Stop::Pending) => true,
    }
}

/// What is set aside for a network is used where the network is stored, and given back where it
/// is not.
pub proof fn lemma_network_quota_is_settled(
    id: u128,
    project_id: Seq<char>,
    name: Seq<char>,
    reservation: Seq<char>,
    t: Log,
)
    ensures
        settles(reservation, store_network_run(id, project_id, name, reservation, t)),
{
}

/// A network is not made where its name is taken: nothing is stored and nothing is set aside.
pub proof fn lemma_taken_name_is_refused(project_id: Seq<char>, name: Seq<char>, t: Log)
    requires
        trim(project_id).len() > 0,
        trim(name).len() > 0,
        networks_in(t.reply()) matches Ok(networks) && name_taken(networks, name),
    ensures
        create_network_run(project_id, name, t) == (
            t.after(StoreCallView::ListNetworks(project_id)),
            halt::<NetworkRecordView>(NetworkErrorView::Conflict),
        ),
        create_canonical_network_run(project_id, name, t) == (
            t.after(StoreCallView::ListNetworks(project_id)),
            halt::<CanonicalNetworkRecordView>(NetworkErrorView::Conflict),
        ),
{
}

} // verus!
