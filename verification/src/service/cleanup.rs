//! The deletion of realms.
//!
//! A realm whose provider state may still exist stays recorded. Its deletion is an operation that
//! is accepted first, and ends only when everything that a provider holds for the realm has been
//! observed to be absent.
use super::access::halt;
use super::calls::{
    accepted_in, bindings_in, canonical_operation_in, done, heard, one, operation_in, operations_in,
    realm_in, tried_realm, unit, Answer, Log, NetworkService, StoreCall, StoreCallView,
};
use super::errors::{
    map_failure, map_store_error, NetworkError, NetworkErrorView, StoreError, StoreErrorView,
};
use super::realms::get_realm_run;
use super::records::{
    AcceptedOperation, AcceptedOperationView, CanonicalAddressRealmRecord,
    CanonicalAddressRealmRecordView, CanonicalOperationRecord, CanonicalOperationRecordView,
    CanonicalRealmBindingRecord, CanonicalRealmBindingRecordView, LifecycleUpdate,
    LifecycleUpdateView, OperationRecord, OperationRecordView, OperationState, RealmDeletionRequest,
    RealmDeletionRequestView,
};
use crate::identity::{
    id_text, id_text_of, id_value, id_value_of, url_name_id, url_name_id_of,
};
use crate::json::{
    json_field, json_field_of, json_id, json_id_of, json_object, json_object_of, Texts,
};
use crate::model::{copy_opt, views, Model};
use crate::session::Stop;
use crate::text::same;
use crate::vocabulary::{qualified, qualified_of};
use vstd::prelude::*;
use vstd::string::StringExecFns;

verus! {

// ---------------------------------------------------------------------------
// Observations and progress
// ---------------------------------------------------------------------------

/// What was observed of something that a provider holds for a realm.
#[derive(Clone, Debug, PartialEq, Eq)]
pub enum RealmCleanupObservation {
    Absent(CanonicalRealmBindingRecord),
    Present(CanonicalRealmBindingRecord),
    /// It is not known whether it is there, for a reason.
    Unknown { binding: CanonicalRealmBindingRecord, reason: String },
}

/// The view of [`RealmCleanupObservation`].
#[verifier::ext_equal]
pub enum RealmCleanupObservationView {
    Absent(CanonicalRealmBindingRecordView),
    Present(CanonicalRealmBindingRecordView),
    Unknown(CanonicalRealmBindingRecordView, Seq<char>),
}

impl View for RealmCleanupObservation {
    type V = RealmCleanupObservationView;

    open spec fn view(&self) -> RealmCleanupObservationView {
        match *self {
            RealmCleanupObservation::Absent(b) => RealmCleanupObservationView::Absent(b@),
            RealmCleanupObservation::Present(b) => RealmCleanupObservationView::Present(b@),
            RealmCleanupObservation::Unknown { binding, reason } => RealmCleanupObservationView::Unknown(
                binding@,
                reason@,
            ),
        }
    }
}

/// How far the deletion of a realm is.
#[derive(Clone, Copy, Debug, PartialEq, Eq, Structural)]
pub enum RealmCleanupProgress {
    Deleting { operation_id: u128, generation: u64 },
    AwaitingObservation { operation_id: u128, generation: u64 },
    Removed { operation_id: u128 },
}

impl View for RealmCleanupProgress {
    type V = RealmCleanupProgress;

    open spec fn view(&self) -> RealmCleanupProgress {
        *self
    }
}

/// What an observation is about.
pub open spec fn observed(o: RealmCleanupObservationView) -> CanonicalRealmBindingRecordView {
    match o {
        RealmCleanupObservationView::Absent(b) => b,
        RealmCleanupObservationView::Present(b) => b,
        RealmCleanupObservationView::Unknown(b, _) => b,
    }
}

/// Whether an observation is about a binding of the realm.
pub open spec fn is_about(
    realm_id: u128,
    binding: CanonicalRealmBindingRecordView,
    o: RealmCleanupObservationView,
) -> bool {
    binding == observed(o) && binding.realm_id == realm_id
}

/// The observations that are about a binding.
pub open spec fn about(
    realm_id: u128,
    binding: CanonicalRealmBindingRecordView,
    os: Seq<RealmCleanupObservationView>,
) -> Seq<RealmCleanupObservationView> {
    os.filter(|o: RealmCleanupObservationView| is_about(realm_id, binding, o))
}

/// What observations say of the bindings of a realm.
#[verifier::ext_equal]
pub enum VerdictView {
    /// Some binding was not observed, or more than once.
    Unclear,
    Unknown(Seq<char>),
    Present,
    Absent,
}

/// What observations say of the bindings of a realm.
#[derive(Clone, Debug, PartialEq, Eq)]
pub enum Verdict {
    Unclear,
    Unknown(String),
    Present,
    Absent,
}

impl View for Verdict {
    type V = VerdictView;

    open spec fn view(&self) -> VerdictView {
        match *self {
            Verdict::Unclear => VerdictView::Unclear,
            Verdict::Unknown(reason) => VerdictView::Unknown(reason@),
            Verdict::Present => VerdictView::Present,
            Verdict::Absent => VerdictView::Absent,
        }
    }
}

/// What observations say of the bindings from the one at `i` on. The first binding that is not
/// absent decides.
pub open spec fn verdict(
    realm_id: u128,
    bindings: Seq<CanonicalRealmBindingRecordView>,
    os: Seq<RealmCleanupObservationView>,
    i: int,
) -> VerdictView
    decreases bindings.len() - i,
{
    if i < 0 || i >= bindings.len() {
        VerdictView::Absent
    } else {
        let which = about(realm_id, bindings[i], os);
        if which.len() != 1 {
            VerdictView::Unclear
        } else {
            match which[0] {
                RealmCleanupObservationView::Unknown(_, reason) => VerdictView::Unknown(reason),
                RealmCleanupObservationView::Present(_) => VerdictView::Present,
                RealmCleanupObservationView::Absent(_) => verdict(realm_id, bindings, os, i + 1),
            }
        }
    }
}

fn observation_is_about(
    realm_id: u128,
    binding: &CanonicalRealmBindingRecord,
    o: &RealmCleanupObservation,
) -> (r: bool)
    ensures
        r == is_about(realm_id, binding@, o@),
{
    let b = match o {
        RealmCleanupObservation::Absent(b) => b,
        RealmCleanupObservation::Present(b) => b,
        RealmCleanupObservation::Unknown { binding: b, .. } => b,
    };
    binding.same_as(b) && binding.realm_id == realm_id
}

/// The place of the only observation that is about a binding.
fn only_about(
    realm_id: u128,
    binding: &CanonicalRealmBindingRecord,
    os: &Vec<RealmCleanupObservation>,
) -> (r: Option<usize>)
    ensures
        match r {
            Some(i) => i < os.len() && about(realm_id, binding@, views(os@)) == seq![
                os@[i as int]@,
            ],
            None => about(realm_id, binding@, views(os@)).len() != 1,
        },
{
    let ghost all = views(os@);
    let ghost p = |o: RealmCleanupObservationView| is_about(realm_id, binding@, o);
    let mut first: Option<usize> = None;
    let mut more: bool = false;
    proof {
        reveal(Seq::filter);
        assert(all.take(0) =~= Seq::empty());
    }
    for i in 0..os.len()
        invariant
            all == views(os@),
            p == (|o: RealmCleanupObservationView| is_about(realm_id, binding@, o)),
            more == (all.take(i as int).filter(p).len() > 1),
            match first {
                None => all.take(i as int).filter(p).len() == 0,
                Some(k) => k < i && all.take(i as int).filter(p).len() >= 1 && (!more
                    ==> all.take(i as int).filter(p) == seq![all[k as int]]),
            },
    {
        proof {
            assert(all[i as int] == os@[i as int]@);
            reveal(Seq::filter);
            assert(all.take(i + 1).drop_last() =~= all.take(i as int));
            assert(all.take(i + 1).last() == all[i as int]);
        }
        if observation_is_about(realm_id, binding, &os[i]) {
            match first {
                None => {
                    first = Some(i);
                    assert(all.take(i + 1).filter(p) =~= seq![all[i as int]]);
                },
                Some(_) => {
                    more = true;
                },
            }
        }
    }
    assert(all.take(all.len() as int) =~= all);
    if more {
        None
    } else {
        match first {
            Some(k) => {
                assert(all[k as int] == os@[k as int]@);
                Some(k)
            },
            None => None,
        }
    }
}

fn verdict_of(
    realm_id: u128,
    bindings: &Vec<CanonicalRealmBindingRecord>,
    os: &Vec<RealmCleanupObservation>,
) -> (r: Verdict)
    ensures
        r@ == verdict(realm_id, views(bindings@), views(os@), 0),
{
    let ghost all = views(bindings@);
    for i in 0..bindings.len()
        invariant
            all == views(bindings@),
            verdict(realm_id, all, views(os@), 0) == verdict(realm_id, all, views(os@), i as int),
    {
        assert(all[i as int] == bindings@[i as int]@);
        match only_about(realm_id, &bindings[i], os) {
            None => return Verdict::Unclear,
            Some(k) => match &os[k] {
                RealmCleanupObservation::Unknown { reason, .. } => {
                    return Verdict::Unknown(reason.clone());
                },
                RealmCleanupObservation::Present(_) => return Verdict::Present,
                RealmCleanupObservation::Absent(_) => {},
            },
        }
    }
    Verdict::Absent
}

// ---------------------------------------------------------------------------
// Steps of an operation
// ---------------------------------------------------------------------------

/// The operation that deletes a realm. It depends on the project and the realm alone, so that
/// whoever tries again joins the same operation.
pub open spec fn deletion_id(project_id: Seq<char>, realm_id: u128) -> u128 {
    url_name_id("o3k:network:realm-delete:"@ + project_id + ":"@ + id_text(realm_id))
}

fn deletion_id_of(project_id: &str, realm_id: u128) -> (r: u128)
    ensures
        r == deletion_id(project_id@, realm_id),
{
    let mut name = "o3k:network:realm-delete:".to_owned();
    name.append(project_id);
    name.append(":");
    name.append(id_text_of(realm_id).as_str());
    url_name_id_of(name.as_str())
}

/// The kind of the operations that delete realms.
pub open spec fn deletion_kind() -> Seq<char> {
    "lifecycle:realm-delete"@
}

/// The operation that deletes a realm, as it is put to the store.
pub open spec fn deletion_request(project_id: Seq<char>, realm_id: u128) -> RealmDeletionRequestView {
    RealmDeletionRequestView {
        operation_id: deletion_id(project_id, realm_id),
        kind: deletion_kind(),
        state: OperationState::Pending,
        service: "network"@,
        action: qualified("DeleteRealm"@),
        actor: "o3k:network-service"@,
        owner_scope: project_id,
        resource_type: qualified("address_realm"@),
        resource_id: realm_id,
        idempotency_key: "canonical:realm-delete:"@ + id_text(realm_id),
        payload: json_object(seq![json_field("realm_id"@, json_id(realm_id))]),
    }
}

/// Computes [`deletion_request`].
pub fn realm_delete_operation(project_id: &str, realm_id: u128) -> (r: RealmDeletionRequest)
    ensures
        r@ == deletion_request(project_id@, realm_id),
{
    let mut key = "canonical:realm-delete:".to_owned();
    key.append(id_text_of(realm_id).as_str());
    let fields = Texts::none().push(json_field_of("realm_id", json_id_of(realm_id).as_str()));
    assert(fields@ =~= seq![json_field("realm_id"@, json_id(realm_id))]);
    RealmDeletionRequest {
        operation_id: deletion_id_of(project_id, realm_id),
        kind: "lifecycle:realm-delete".to_owned(),
        state: OperationState::Pending,
        service: "network".to_owned(),
        action: qualified_of("DeleteRealm"),
        actor: "o3k:network-service".to_owned(),
        owner_scope: project_id.to_owned(),
        resource_type: qualified_of("address_realm"),
        resource_id: realm_id,
        idempotency_key: key,
        payload: json_object_of(&fields),
    }
}

/// The call that accepts the deletion of a realm.
pub open spec fn acceptance(project_id: Seq<char>, realm_id: u128) -> StoreCallView {
    StoreCallView::AcceptRealmDeletion(deletion_request(project_id, realm_id))
}

fn acceptance_of(project_id: &str, realm_id: u128) -> (r: StoreCall)
    ensures
        r@ == acceptance(project_id@, realm_id),
{
    StoreCall::AcceptRealmDeletion(realm_delete_operation(project_id, realm_id))
}

/// One more attempt.
pub open spec fn next_attempt(op: CanonicalOperationRecordView) -> u32 {
    if op.attempt == u32::MAX {
        u32::MAX
    } else {
        (op.attempt + 1) as u32
    }
}

fn next_attempt_of(op: &CanonicalOperationRecord) -> (r: u32)
    ensures
        r == next_attempt(op@),
{
    if op.attempt == u32::MAX {
        u32::MAX
    } else {
        op.attempt + 1
    }
}

/// When an operation started, as far as it is known.
pub open spec fn start_of(op: CanonicalOperationRecordView) -> Seq<char> {
    match op.started_at {
        Some(at) => at,
        None => op.created_at,
    }
}

fn start_text(op: &CanonicalOperationRecord) -> (r: String)
    ensures
        r@ == start_of(op@),
{
    match &op.started_at {
        Some(at) => at.clone(),
        None => op.created_at.clone(),
    }
}

/// A step after which the operation has ended well.
pub open spec fn succeeded(op: CanonicalOperationRecordView) -> LifecycleUpdateView {
    LifecycleUpdateView {
        state: OperationState::Succeeded,
        attempt: next_attempt(op),
        started_at: op.started_at,
        finished_at: Some(start_of(op)),
        error: None,
    }
}

fn succeeded_of(op: &CanonicalOperationRecord) -> (r: LifecycleUpdate)
    ensures
        r@ == succeeded(op@),
{
    LifecycleUpdate {
        state: OperationState::Succeeded,
        attempt: next_attempt_of(op),
        started_at: copy_opt(&op.started_at),
        finished_at: Some(start_text(op)),
        error: None,
    }
}

/// A step after which the operation goes on, for a reason.
pub open spec fn unfinished(
    op: CanonicalOperationRecordView,
    state: OperationState,
    reason: Seq<char>,
) -> LifecycleUpdateView {
    LifecycleUpdateView {
        state,
        attempt: next_attempt(op),
        started_at: op.started_at,
        finished_at: None,
        error: Some(reason),
    }
}

fn unfinished_of(op: &CanonicalOperationRecord, state: OperationState, reason: &str) -> (r:
    LifecycleUpdate)
    ensures
        r@ == unfinished(op@, state, reason@),
{
    LifecycleUpdate {
        state,
        attempt: next_attempt_of(op),
        started_at: copy_opt(&op.started_at),
        finished_at: None,
        error: Some(reason.to_owned()),
    }
}

/// A step after which the operation runs.
pub open spec fn running(attempt: u32, started_at: Seq<char>) -> LifecycleUpdateView {
    LifecycleUpdateView {
        state: OperationState::Running,
        attempt,
        started_at: Some(started_at),
        finished_at: None,
        error: None,
    }
}

fn running_of(attempt: u32, started_at: String) -> (r: LifecycleUpdate)
    ensures
        r@ == running(attempt, started_at@),
{
    LifecycleUpdate {
        state: OperationState::Running,
        attempt,
        started_at: Some(started_at),
        finished_at: None,
        error: None,
    }
}

/// The largest generation that the lifecycle of a resource can have.
pub const MAX_GENERATION: u64 = 0x7fff_ffff_ffff_ffff;

/// Changes the lifecycle of a realm. Generations that it cannot have are refused.
pub open spec fn update_resource_run(
    id: u128,
    expected: u64,
    state: Seq<char>,
    generation: u64,
    t: Log,
) -> (Log, Answer<()>) {
    if expected > MAX_GENERATION || generation > MAX_GENERATION {
        (t, halt(NetworkErrorView::InvalidRequest))
    } else {
        (
            t.after(
                StoreCallView::UpdateResource(id, expected as i64, state, state, generation as i64),
            ),
            done(t.reply()),
        )
    }
}

impl NetworkService {
    fn update_realm_resource(&mut self, id: u128, expected: u64, state: &str, generation: u64) -> (r:
        Result<(), Stop<NetworkError>>)
        ensures
            (final(self)@, unit(r)) == update_resource_run(
                id,
                expected,
                state@,
                generation,
                old(self)@,
            ),
    {
        if expected > MAX_GENERATION || generation > MAX_GENERATION {
            return Err(Stop::Failed(NetworkError::InvalidRequest));
        }
        self.perform(
            StoreCall::UpdateResource(
                id,
                expected as i64,
                state.to_owned(),
                state.to_owned(),
                generation as i64,
            ),
        )
    }
}

// ---------------------------------------------------------------------------
// Beginning a deletion
// ---------------------------------------------------------------------------

/// Reports that a realm cannot be deleted, and why the operation ended.
pub open spec fn reject_run(
    operation_id: u128,
    state: OperationState,
    category: Seq<char>,
    message: Seq<char>,
    e: NetworkErrorView,
    t: Log,
) -> (Log, Answer<RealmCleanupProgress>) {
    let t1 = t.after(StoreCallView::UpdateOperation(operation_id, state, category, message));
    match heard(t.reply()) {
        Err(stop) => (t1, Err(stop)),
        Ok(()) => (t1, halt(e)),
    }
}

/// Marks an active realm as being deleted, under an accepted operation.
pub open spec fn mark_deleting_run(
    project_id: Seq<char>,
    realm: CanonicalAddressRealmRecordView,
    realm_id: u128,
    accepted: AcceptedOperationView,
    t: Log,
) -> (Log, Answer<RealmCleanupProgress>) {
    let t1 = t.after(StoreCallView::BeginRealmDeletion(project_id, realm_id, realm.generation));
    match tried_realm(t.reply()) {
        Err(stop) => (t1, Err(stop)),
        Ok(Err(f)) => reject_run(
            accepted.operation_id,
            if f.error == StoreErrorView::NetworkInUse {
                OperationState::Retryable
            } else {
                OperationState::Failed
            },
            "rejected"@,
            f.message,
            map_failure(f),
            t1,
        ),
        Ok(Ok(deleting)) => {
            let (t2, updated) = update_resource_run(
                realm_id,
                realm.generation,
                "deleting"@,
                deleting.generation,
                t1,
            );
            match updated {
                Err(stop) => (t2, Err(stop)),
                Ok(()) => {
                    let t3 = t2.after(
                        StoreCallView::UpdateLifecycle(
                            accepted.operation_id,
                            running(1, accepted.created_at),
                        ),
                    );
                    match done(t2.reply()) {
                        Err(stop) => (t3, Err(stop)),
                        Ok(()) => (
                            t3,
                            Ok(
                                RealmCleanupProgress::Deleting {
                                    operation_id: accepted.operation_id,
                                    generation: deleting.generation,
                                },
                            ),
                        ),
                    }
                },
            }
        },
    }
}

/// Accepts the deletion of a realm, before anything that a provider holds for it is touched. A
/// realm that is being deleted already is not touched again.
pub open spec fn begin_deletion_run(project_id: Seq<char>, realm_id: u128, t: Log) -> (
    Log,
    Answer<RealmCleanupProgress>,
) {
    let (t1, got) = get_realm_run(project_id, realm_id, t);
    match got {
        Err(stop) => (t1, Err(stop)),
        Ok(realm) => {
            let t2 = t1.after(acceptance(project_id, realm_id));
            match accepted_in(t1.reply()) {
                Err(stop) => (t2, Err(stop)),
                Ok(None) => (t2, halt(NetworkErrorView::Conflict)),
                Ok(Some(accepted)) => if realm.state == "deleting"@ {
                    (
                        t2,
                        Ok(
                            RealmCleanupProgress::AwaitingObservation {
                                operation_id: accepted.operation_id,
                                generation: realm.generation,
                            },
                        ),
                    )
                } else if realm.state != "active"@ {
                    reject_run(
                        accepted.operation_id,
                        OperationState::Failed,
                        "invalid_state"@,
                        "Realm is not deletable in its current lifecycle state"@,
                        NetworkErrorView::Conflict,
                        t2,
                    )
                } else {
                    mark_deleting_run(project_id, realm, realm_id, accepted, t2)
                },
            }
        },
    }
}

impl NetworkService {
    fn reject(
        &mut self,
        operation_id: u128,
        state: OperationState,
        category: &str,
        message: &str,
        e: NetworkError,
    ) -> (r: Result<RealmCleanupProgress, Stop<NetworkError>>)
        ensures
            (final(self)@, one(r)) == reject_run(
                operation_id,
                state,
                category@,
                message@,
                e@,
                old(self)@,
            ),
    {
        match self.tell(
            StoreCall::UpdateOperation(
                operation_id,
                state,
                category.to_owned(),
                message.to_owned(),
            ),
        ) {
            Err(stop) => Err(stop),
            Ok(()) => Err(Stop::Failed(e)),
        }
    }

    fn mark_deleting(
        &mut self,
        project_id: &str,
        realm: &CanonicalAddressRealmRecord,
        realm_id: u128,
        accepted: &AcceptedOperation,
    ) -> (r: Result<RealmCleanupProgress, Stop<NetworkError>>)
        ensures
            (final(self)@, one(r)) == mark_deleting_run(
                project_id@,
                realm@,
                realm_id,
                accepted@,
                old(self)@,
            ),
    {
        let deleting = match self.attempt_realm(
            StoreCall::BeginRealmDeletion(project_id.to_owned(), realm_id, realm.generation),
        ) {
            Err(stop) => return Err(stop),
            Ok(Ok(deleting)) => deleting,
            Ok(Err(f)) => {
                let state = match &f.error {
                    StoreError::NetworkInUse => OperationState::Retryable,
                    _ => OperationState::Failed,
                };
                return self.reject(
                    accepted.operation_id,
                    state,
                    "rejected",
                    f.message.as_str(),
                    map_store_error(&f),
                );
            },
        };
        match self.update_realm_resource(
            realm_id,
            realm.generation,
            "deleting",
            deleting.generation,
        ) {
            Err(stop) => return Err(stop),
            Ok(()) => {},
        }
        let update = running_of(1, accepted.created_at.clone());
        match self.perform(StoreCall::UpdateLifecycle(accepted.operation_id, update)) {
            Err(stop) => Err(stop),
            Ok(()) => Ok(
                RealmCleanupProgress::Deleting {
                    operation_id: accepted.operation_id,
                    generation: deleting.generation,
                },
            ),
        }
    }

    /// Performs [`begin_deletion_run`].
    pub fn begin_canonical_realm_deletion_for_project(&mut self, project_id: &str, realm_id: u128)
        -> (r: Result<RealmCleanupProgress, Stop<NetworkError>>)
        ensures
            (final(self)@, one(r)) == begin_deletion_run(project_id@, realm_id, old(self)@),
    {
        let realm = match self.get_canonical_realm_for_project(project_id, realm_id) {
            Err(stop) => return Err(stop),
            Ok(realm) => realm,
        };
        let accepted = match self.ask_accepted(acceptance_of(project_id, realm_id)) {
            Err(stop) => return Err(stop),
            Ok(None) => return Err(Stop::Failed(NetworkError::Conflict)),
            Ok(Some(accepted)) => accepted,
        };
        if same(realm.state.as_str(), "deleting") {
            return Ok(
                RealmCleanupProgress::AwaitingObservation {
                    operation_id: accepted.operation_id,
                    generation: realm.generation,
                },
            );
        }
        if !same(realm.state.as_str(), "active") {
            return self.reject(
                accepted.operation_id,
                OperationState::Failed,
                "invalid_state",
                "Realm is not deletable in its current lifecycle state",
                NetworkError::Conflict,
            );
        }
        self.mark_deleting(project_id, &realm, realm_id, &accepted)
    }
}

// ---------------------------------------------------------------------------
// Observing
// ---------------------------------------------------------------------------

/// Keeps a realm whose provider state is not known to be absent.
pub open spec fn keep_realm_run(
    operation_id: u128,
    generation: u64,
    update: LifecycleUpdateView,
    t: Log,
) -> (Log, Answer<RealmCleanupProgress>) {
    let t1 = t.after(StoreCallView::UpdateLifecycle(operation_id, update));
    match done(t.reply()) {
        Err(stop) => (t1, Err(stop)),
        Ok(()) => (
            t1,
            Ok(RealmCleanupProgress::AwaitingObservation { operation_id, generation }),
        ),
    }
}

/// Forgets bindings from the one at `i` on.
pub open spec fn drop_bindings_run(
    bindings: Seq<CanonicalRealmBindingRecordView>,
    generation: u64,
    i: int,
    t: Log,
) -> (Log, Answer<()>)
    decreases bindings.len() - i,
{
    if i < 0 || i >= bindings.len() {
        (t, Ok(()))
    } else {
        let t1 = t.after(StoreCallView::DeleteRealmBinding(bindings[i], generation));
        match done(t.reply()) {
            Err(stop) => (t1, Err(stop)),
            Ok(()) => drop_bindings_run(bindings, generation, i + 1, t1),
        }
    }
}

/// Removes a realm of which a provider holds nothing any more.
pub open spec fn remove_realm_run(
    project_id: Seq<char>,
    realm_id: u128,
    realm: CanonicalAddressRealmRecordView,
    operation_id: u128,
    op: CanonicalOperationRecordView,
    bindings: Seq<CanonicalRealmBindingRecordView>,
    t: Log,
) -> (Log, Answer<RealmCleanupProgress>) {
    let (t1, dropped) = drop_bindings_run(bindings, realm.generation, 0, t);
    match dropped {
        Err(stop) => (t1, Err(stop)),
        Ok(()) => {
            let t2 = t1.after(
                StoreCallView::FinalizeRealmDeletion(project_id, realm_id, realm.generation),
            );
            match done(t1.reply()) {
                Err(stop) => (t2, Err(stop)),
                Ok(()) => {
                    let (t3, updated) = update_resource_run(
                        realm_id,
                        realm.generation,
                        "deleted"@,
                        realm.generation,
                        t2,
                    );
                    match updated {
                        Err(Stop::Pending) => (t3, Err(Stop::Pending)),
                        _ => if realm.generation > MAX_GENERATION {
                            (t3, halt(NetworkErrorView::InvalidRequest))
                        } else {
                            let t4 = t3.after(
                                StoreCallView::UpdateLifecycle(operation_id, succeeded(op)),
                            );
                            match done(t3.reply()) {
                                Err(stop) => (t4, Err(stop)),
                                Ok(()) => (
                                    t4,
                                    Ok(RealmCleanupProgress::Removed { operation_id }),
                                ),
                            }
                        },
                    }
                },
            }
        },
    }
}

/// Does what observations of all bindings of a realm call for.
pub open spec fn judge_run(
    project_id: Seq<char>,
    realm_id: u128,
    realm: CanonicalAddressRealmRecordView,
    op: CanonicalOperationRecordView,
    os: Seq<RealmCleanupObservationView>,
    t: Log,
) -> (Log, Answer<RealmCleanupProgress>) {
    let operation_id = deletion_id(project_id, realm_id);
    let t1 = t.after(StoreCallView::ListRealmBindings(realm_id));
    match bindings_in(t.reply()) {
        Err(stop) => (t1, Err(stop)),
        Ok(bindings) => if os.len() != bindings.len() {
            (t1, halt(NetworkErrorView::Conflict))
        } else {
            match verdict(realm_id, bindings, os, 0) {
                VerdictView::Unclear => (t1, halt(NetworkErrorView::Conflict)),
                VerdictView::Unknown(reason) => keep_realm_run(
                    operation_id,
                    realm.generation,
                    unfinished(op, OperationState::UnknownOutcome, reason),
                    t1,
                ),
                VerdictView::Present => keep_realm_run(
                    operation_id,
                    realm.generation,
                    unfinished(
                        op,
                        OperationState::Retryable,
                        "owned provider Realm state is still present"@,
                    ),
                    t1,
                ),
                VerdictView::Absent => remove_realm_run(
                    project_id,
                    realm_id,
                    realm,
                    operation_id,
                    op,
                    bindings,
                    t1,
                ),
            }
        },
    }
}

/// Whether the operation and what is known of its course are those of the realm's deletion.
pub open spec fn is_deletion_of(
    project_id: Seq<char>,
    realm_id: u128,
    operation: OperationRecordView,
    op: CanonicalOperationRecordView,
) -> bool {
    operation.resource_id == realm_id && op.owner_scope == project_id && op.resource_id == Some(
        id_text(realm_id),
    )
}

/// Applies observations to the deletion of a realm. Each thing that a provider holds for the
/// realm has to be observed exactly once.
pub open spec fn observe_run(
    project_id: Seq<char>,
    realm_id: u128,
    os: Seq<RealmCleanupObservationView>,
    t: Log,
) -> (Log, Answer<RealmCleanupProgress>) {
    let (t1, got) = get_realm_run(project_id, realm_id, t);
    match got {
        Err(stop) => (t1, Err(stop)),
        Ok(realm) => if realm.state != "deleting"@ {
            (t1, halt(NetworkErrorView::Conflict))
        } else {
            let operation_id = deletion_id(project_id, realm_id);
            let t2 = t1.after(StoreCallView::GetOperation(operation_id));
            match operation_in(t1.reply()) {
                Err(stop) => (t2, Err(stop)),
                Ok(operation) => {
                    let t3 = t2.after(StoreCallView::GetCanonicalOperation(operation_id));
                    match canonical_operation_in(t2.reply()) {
                        Err(stop) => (t3, Err(stop)),
                        Ok(op) => if !is_deletion_of(project_id, realm_id, operation, op) {
                            (t3, halt(NetworkErrorView::InvalidRequest))
                        } else {
                            judge_run(project_id, realm_id, realm, op, os, t3)
                        },
                    }
                },
            }
        },
    }
}

impl NetworkService {
    fn keep_realm(&mut self, operation_id: u128, generation: u64, update: LifecycleUpdate) -> (r:
        Result<RealmCleanupProgress, Stop<NetworkError>>)
        ensures
            (final(self)@, one(r)) == keep_realm_run(
                operation_id,
                generation,
                update@,
                old(self)@,
            ),
    {
        match self.perform(StoreCall::UpdateLifecycle(operation_id, update)) {
            Err(stop) => Err(stop),
            Ok(()) => Ok(RealmCleanupProgress::AwaitingObservation { operation_id, generation }),
        }
    }

    fn drop_bindings(&mut self, bindings: &Vec<CanonicalRealmBindingRecord>, generation: u64) -> (r:
        Result<(), Stop<NetworkError>>)
        ensures
            (final(self)@, unit(r)) == drop_bindings_run(
                views(bindings@),
                generation,
                0,
                old(self)@,
            ),
    {
        let ghost all = views(bindings@);
        let ghost whole = drop_bindings_run(all, generation, 0, self@);
        for i in 0..bindings.len()
            invariant
                all == views(bindings@),
                whole == drop_bindings_run(all, generation, 0, old(self)@),
                whole == drop_bindings_run(all, generation, i as int, self@),
        {
            assert(all[i as int] == bindings@[i as int]@);
            match self.perform(StoreCall::DeleteRealmBinding(bindings[i].copy(), generation)) {
                Err(stop) => return Err(stop),
                Ok(()) => {},
            }
        }
        Ok(())
    }

    fn remove_realm(
        &mut self,
        project_id: &str,
        realm_id: u128,
        realm: &CanonicalAddressRealmRecord,
        operation_id: u128,
        op: &CanonicalOperationRecord,
        bindings: &Vec<CanonicalRealmBindingRecord>,
    ) -> (r: Result<RealmCleanupProgress, Stop<NetworkError>>)
        ensures
            (final(self)@, one(r)) == remove_realm_run(
                project_id@,
                realm_id,
                realm@,
                operation_id,
                op@,
                views(bindings@),
                old(self)@,
            ),
    {
        match self.drop_bindings(bindings, realm.generation) {
            Err(stop) => return Err(stop),
            Ok(()) => {},
        }
        match self.perform(
            StoreCall::FinalizeRealmDeletion(project_id.to_owned(), realm_id, realm.generation),
        ) {
            Err(stop) => return Err(stop),
            Ok(()) => {},
        }
        match self.update_realm_resource(
            realm_id,
            realm.generation,
            "deleted",
            realm.generation,
        ) {
            Err(Stop::Pending) => return Err(Stop::Pending),
            _ => {},
        }
        if realm.generation > MAX_GENERATION {
            return Err(Stop::Failed(NetworkError::InvalidRequest));
        }
        match self.perform(StoreCall::UpdateLifecycle(operation_id, succeeded_of(op))) {
            Err(stop) => Err(stop),
            Ok(()) => Ok(RealmCleanupProgress::Removed { operation_id }),
        }
    }

    fn judge(
        &mut self,
        project_id: &str,
        realm_id: u128,
        realm: &CanonicalAddressRealmRecord,
        op: &CanonicalOperationRecord,
        observations: &Vec<RealmCleanupObservation>,
    ) -> (r: Result<RealmCleanupProgress, Stop<NetworkError>>)
        ensures
            (final(self)@, one(r)) == judge_run(
                project_id@,
                realm_id,
                realm@,
                op@,
                views(observations@),
                old(self)@,
            ),
    {
        let operation_id: u128 = deletion_id_of(project_id, realm_id);
        let bindings = match self.ask_bindings(StoreCall::ListRealmBindings(realm_id)) {
            Err(stop) => return Err(stop),
            Ok(bindings) => bindings,
        };
        assert(views(observations@).len() == observations@.len());
        assert(views(bindings@).len() == bindings@.len());
        if observations.len() != bindings.len() {
            return Err(Stop::Failed(NetworkError::Conflict));
        }
        match verdict_of(realm_id, &bindings, observations) {
            Verdict::Unclear => Err(Stop::Failed(NetworkError::Conflict)),
            Verdict::Unknown(reason) => self.keep_realm(
                operation_id,
                realm.generation,
                unfinished_of(op, OperationState::UnknownOutcome, reason.as_str()),
            ),
            Verdict::Present => self.keep_realm(
                operation_id,
                realm.generation,
                unfinished_of(
                    op,
                    OperationState::Retryable,
                    "owned provider Realm state is still present",
                ),
            ),
            Verdict::Absent => self.remove_realm(
                project_id,
                realm_id,
                realm,
                operation_id,
                op,
                &bindings,
            ),
        }
    }

    /// Performs [`observe_run`].
    pub fn observe_canonical_realm_cleanup_for_project(
        &mut self,
        project_id: &str,
        realm_id: u128,
        observations: &Vec<RealmCleanupObservation>,
    ) -> (r: Result<RealmCleanupProgress, Stop<NetworkError>>)
        ensures
            (final(self)@, one(r)) == observe_run(
                project_id@,
                realm_id,
                views(observations@),
                old(self)@,
            ),
    {
        let realm = match self.get_canonical_realm_for_project(project_id, realm_id) {
            Err(stop) => return Err(stop),
            Ok(realm) => realm,
        };
        if !same(realm.state.as_str(), "deleting") {
            return Err(Stop::Failed(NetworkError::Conflict));
        }
        let operation_id: u128 = deletion_id_of(project_id, realm_id);
        let operation = match self.ask_operation(StoreCall::GetOperation(operation_id)) {
            Err(stop) => return Err(stop),
            Ok(operation) => operation,
        };
        let op = match self.ask_canonical_operation(
            StoreCall::GetCanonicalOperation(operation_id),
        ) {
            Err(stop) => return Err(stop),
            Ok(op) => op,
        };
        let text = id_text_of(realm_id);
        let same_resource = match &op.resource_id {
            Some(s) => same(s.as_str(), text.as_str()),
            None => false,
        };
        if operation.resource_id != realm_id || !same(op.owner_scope.as_str(), project_id)
            || !same_resource {
            return Err(Stop::Failed(NetworkError::InvalidRequest));
        }
        self.judge(project_id, realm_id, &realm, &op, observations)
    }
}

// ---------------------------------------------------------------------------
// Deleting in one go
// ---------------------------------------------------------------------------

/// Deletes a realm for which no provider holds anything. Where one does, the realm stays as it is
/// being deleted until that is observed to be gone.
pub open spec fn delete_realm_run(project_id: Seq<char>, realm_id: u128, t: Log) -> (
    Log,
    Answer<()>,
) {
    let (t1, begun) = begin_deletion_run(project_id, realm_id, t);
    match begun {
        Err(stop) => (t1, Err(stop)),
        Ok(_) => {
            let t2 = t1.after(StoreCallView::ListRealmBindings(realm_id));
            match bindings_in(t1.reply()) {
                Err(stop) => (t2, Err(stop)),
                Ok(bindings) => if bindings.len() != 0 {
                    (t2, halt(NetworkErrorView::Conflict))
                } else {
                    let (t3, observed) = observe_run(project_id, realm_id, Seq::empty(), t2);
                    match observed {
                        Err(stop) => (t3, Err(stop)),
                        Ok(RealmCleanupProgress::Removed { .. }) => (t3, Ok(())),
                        Ok(_) => (t3, halt(NetworkErrorView::Conflict)),
                    }
                },
            }
        },
    }
}

impl NetworkService {
    /// Performs [`delete_realm_run`].
    pub fn delete_canonical_realm_for_project(&mut self, project_id: &str, realm_id: u128) -> (r:
        Result<(), Stop<NetworkError>>)
        ensures
            (final(self)@, unit(r)) == delete_realm_run(project_id@, realm_id, old(self)@),
    {
        match self.begin_canonical_realm_deletion_for_project(project_id, realm_id) {
            Err(stop) => return Err(stop),
            Ok(_) => {},
        }
        let bindings = match self.ask_bindings(StoreCall::ListRealmBindings(realm_id)) {
            Err(stop) => return Err(stop),
            Ok(bindings) => bindings,
        };
        assert(views(bindings@).len() == bindings@.len());
        if bindings.len() != 0 {
            return Err(Stop::Failed(NetworkError::Conflict));
        }
        let nothing: Vec<RealmCleanupObservation> = Vec::new();
        assert(views(nothing@) =~= Seq::<RealmCleanupObservationView>::empty());
        match self.observe_canonical_realm_cleanup_for_project(project_id, realm_id, &nothing) {
            Err(stop) => Err(stop),
            Ok(RealmCleanupProgress::Removed { .. }) => Ok(()),
            Ok(_) => Err(Stop::Failed(NetworkError::Conflict)),
        }
    }
}

// ---------------------------------------------------------------------------
// Recovery
// ---------------------------------------------------------------------------

/// Takes up the deletion of an active realm again.
pub open spec fn resume_run(
    operation_id: u128,
    op: CanonicalOperationRecordView,
    realm_id: u128,
    realm: CanonicalAddressRealmRecordView,
    t: Log,
) -> (Log, Answer<()>) {
    let t1 = t.after(
        StoreCallView::BeginRealmDeletion(op.owner_scope, realm_id, realm.generation),
    );
    match tried_realm(t.reply()) {
        Err(stop) => (t1, Err(stop)),
        Ok(Err(f)) => if f.error == StoreErrorView::NetworkInUse {
            (
                t1.after(
                    StoreCallView::UpdateLifecycle(
                        operation_id,
                        unfinished(
                            op,
                            OperationState::Retryable,
                            "realm still has canonical dependents"@,
                        ),
                    ),
                ),
                done(t1.reply()),
            )
        } else {
            (t1, halt(map_failure(f)))
        },
        Ok(Ok(deleting)) => {
            let (t2, updated) = update_resource_run(
                realm_id,
                realm.generation,
                "deleting"@,
                deleting.generation,
                t1,
            );
            match updated {
                Err(stop) => (t2, Err(stop)),
                Ok(()) => (
                    t2.after(
                        StoreCallView::UpdateLifecycle(
                            operation_id,
                            running(next_attempt(op), start_of(op)),
                        ),
                    ),
                    done(t2.reply()),
                ),
            }
        },
    }
}

/// Takes up one unfinished operation again, if it deletes a realm. One whose realm is gone has
/// succeeded.
pub open spec fn recover_one_run(operation: OperationRecordView, t: Log) -> (Log, Answer<()>) {
    if operation.kind != deletion_kind() {
        (t, Ok(()))
    } else {
        let t1 = t.after(StoreCallView::GetCanonicalOperation(operation.id));
        match canonical_operation_in(t.reply()) {
            Err(stop) => (t1, Err(stop)),
            Ok(op) => match realm_named(op.resource_id) {
                None => (t1, halt(NetworkErrorView::InvalidRequest)),
                Some(realm_id) => {
                    let t2 = t1.after(StoreCallView::GetRealm(op.owner_scope, realm_id));
                    match realm_in(t1.reply()) {
                        Err(stop) => (t2, Err(stop)),
                        Ok(None) => (
                            t2.after(
                                StoreCallView::UpdateLifecycle(operation.id, succeeded(op)),
                            ),
                            done(t2.reply()),
                        ),
                        Ok(Some(realm)) => if realm.state == "active"@ {
                            resume_run(operation.id, op, realm_id, realm, t2)
                        } else {
                            (t2, Ok(()))
                        },
                    }
                },
            },
        }
    }
}

/// The realm that an operation names.
pub open spec fn realm_named(s: Option<Seq<char>>) -> Option<u128> {
    match s {
        Some(text) => id_value(text),
        None => None,
    }
}

/// Takes up unfinished operations again from the one at `i` on.
pub open spec fn recover_all_run(operations: Seq<OperationRecordView>, i: int, t: Log) -> (
    Log,
    Answer<()>,
)
    decreases operations.len() - i,
{
    if i < 0 || i >= operations.len() {
        (t, Ok(()))
    } else {
        let (t1, recovered) = recover_one_run(operations[i], t);
        match recovered {
            Err(stop) => (t1, Err(stop)),
            Ok(()) => recover_all_run(operations, i + 1, t1),
        }
    }
}

/// Takes up all unfinished deletions of realms again.
pub open spec fn recover_run(t: Log) -> (Log, Answer<()>) {
    let t1 = t.after(StoreCallView::ListOpenOperations);
    match operations_in(t.reply()) {
        Err(stop) => (t1, Err(stop)),
        Ok(operations) => recover_all_run(operations, 0, t1),
    }
}

impl NetworkService {
    fn resume_deletion(
        &mut self,
        operation_id: u128,
        op: &CanonicalOperationRecord,
        realm_id: u128,
        realm: &CanonicalAddressRealmRecord,
    ) -> (r: Result<(), Stop<NetworkError>>)
        ensures
            (final(self)@, unit(r)) == resume_run(
                operation_id,
                op@,
                realm_id,
                realm@,
                old(self)@,
            ),
    {
        let deleting = match self.attempt_realm(
            StoreCall::BeginRealmDeletion(op.owner_scope.clone(), realm_id, realm.generation),
        ) {
            Err(stop) => return Err(stop),
            Ok(Ok(deleting)) => deleting,
            Ok(Err(f)) => match &f.error {
                StoreError::NetworkInUse => {
                    let update = unfinished_of(
                        op,
                        OperationState::Retryable,
                        "realm still has canonical dependents",
                    );
                    return self.perform(StoreCall::UpdateLifecycle(operation_id, update));
                },
                _ => return Err(Stop::Failed(map_store_error(&f))),
            },
        };
        match self.update_realm_resource(
            realm_id,
            realm.generation,
            "deleting",
            deleting.generation,
        ) {
            Err(stop) => return Err(stop),
            Ok(()) => {},
        }
        let update = running_of(next_attempt_of(op), start_text(op));
        self.perform(StoreCall::UpdateLifecycle(operation_id, update))
    }

    fn recover_one(&mut self, operation: &OperationRecord) -> (r: Result<(), Stop<NetworkError>>)
        ensures
            (final(self)@, unit(r)) == recover_one_run(operation@, old(self)@),
    {
        if !same(operation.kind.as_str(), "lifecycle:realm-delete") {
            return Ok(());
        }
        let op = match self.ask_canonical_operation(
            StoreCall::GetCanonicalOperation(operation.id),
        ) {
            Err(stop) => return Err(stop),
            Ok(op) => op,
        };
        let named: Option<u128> = match &op.resource_id {
            Some(text) => id_value_of(text.as_str()),
            None => None,
        };
        let realm_id: u128 = match named {
            None => return Err(Stop::Failed(NetworkError::InvalidRequest)),
            Some(id) => id,
        };
        let realm = match self.ask_realm(StoreCall::GetRealm(op.owner_scope.clone(), realm_id)) {
            Err(stop) => return Err(stop),
            Ok(None) => {
                return self.perform(
                    StoreCall::UpdateLifecycle(operation.id, succeeded_of(&op)),
                );
            },
            Ok(Some(realm)) => realm,
        };
        if same(realm.state.as_str(), "active") {
            self.resume_deletion(operation.id, &op, realm_id, &realm)
        } else {
            Ok(())
        }
    }

    /// Performs [`recover_run`].
    pub fn recover_realm_deletion_operations(&mut self) -> (r: Result<(), Stop<NetworkError>>)
        ensures
            (final(self)@, unit(r)) == recover_run(old(self)@),
    {
        let operations = match self.ask_operations(StoreCall::ListOpenOperations) {
            Err(stop) => return Err(stop),
            Ok(operations) => operations,
        };
        let ghost all = views(operations@);
        for i in 0..operations.len()
            invariant
                all == views(operations@),
                recover_run(old(self)@) == recover_all_run(all, i as int, self@),
        {
            assert(all[i as int] == operations@[i as int]@);
            match self.recover_one(&operations[i]) {
                Err(stop) => return Err(stop),
                Ok(()) => {},
            }
        }
        Ok(())
    }
}

// ---------------------------------------------------------------------------
// Laws
// ---------------------------------------------------------------------------

/// Whether a call forgets a binding or removes a realm.
pub open spec fn removes(call: StoreCallView) -> bool {
    call is DeleteRealmBinding || call is FinalizeRealmDeletion
}

/// Whether all bindings were observed to be absent, each exactly once.
pub open spec fn all_absent(
    realm_id: u128,
    bindings: Seq<CanonicalRealmBindingRecordView>,
    os: Seq<RealmCleanupObservationView>,
) -> bool {
    forall|i: int|
        0 <= i < bindings.len() ==> about(realm_id, #[trigger] bindings[i], os).len() == 1
            && about(realm_id, bindings[i], os)[0] is Absent
}

proof fn lemma_verdict_absent(
    realm_id: u128,
    bindings: Seq<CanonicalRealmBindingRecordView>,
    os: Seq<RealmCleanupObservationView>,
    n: int,
)
    requires
        0 <= n <= bindings.len(),
        verdict(realm_id, bindings, os, n) == VerdictView::Absent,
    ensures
        forall|i: int|
            n <= i < bindings.len() ==> about(realm_id, #[trigger] bindings[i], os).len() == 1
                && about(realm_id, bindings[i], os)[0] is Absent,
    decreases bindings.len() - n,
{
    if n < bindings.len() {
        lemma_verdict_absent(realm_id, bindings, os, n + 1);
    }
}

/// A realm, and what is recorded of its providers, is removed only where everything that a
/// provider holds for it was observed to be absent: otherwise none of the calls that follow
/// removes anything.
pub proof fn lemma_realm_stays_until_absent(
    project_id: Seq<char>,
    realm_id: u128,
    realm: CanonicalAddressRealmRecordView,
    op: CanonicalOperationRecordView,
    os: Seq<RealmCleanupObservationView>,
    t: Log,
    i: int,
)
    requires
        bindings_in(t.reply()) is Ok ==> !all_absent(realm_id, bindings_in(t.reply())->Ok_0, os),
        t.issued.len() <= i < judge_run(project_id, realm_id, realm, op, os, t).0.issued.len(),
    ensures
        !removes(judge_run(project_id, realm_id, realm, op, os, t).0.issued[i]),
        !(judge_run(project_id, realm_id, realm, op, os, t).1 matches Ok(
            RealmCleanupProgress::Removed { .. },
        )),
{
    match bindings_in(t.reply()) {
        Ok(bindings) => {
            if verdict(realm_id, bindings, os, 0) == VerdictView::Absent {
                lemma_verdict_absent(realm_id, bindings, os, 0);
                assert(all_absent(realm_id, bindings, os));
            }
        },
        Err(_) => {},
    }
}

/// Beginning the deletion of a realm that is being deleted already changes nothing and joins the
/// same operation.
pub proof fn lemma_deletion_is_joined(project_id: Seq<char>, realm_id: u128, t: Log)
    requires
        get_realm_run(project_id, realm_id, t).1 matches Ok(realm) && realm.state == "deleting"@,
    ensures
        begin_deletion_run(project_id, realm_id, t).0 == t.after(
            StoreCallView::GetRealm(project_id, realm_id),
        ).after(acceptance(project_id, realm_id)),
{
    reveal_strlit("deleting");
    reveal_strlit("active");
}

} // verus!
