//! How requests are decided on, and how the deletion of a realm ends.
use super::access::{audited, authorize_run, noted, owner_run, permit_run};
use super::calls::{
    bindings_in, decision_in, owner_in, realm_in, tried_realm, Answer, Decision, Log, StoreCallView,
};
use super::cleanup::{
    about, begin_deletion_run, drop_bindings_run, is_about, judge_run, mark_deleting_run, verdict,
    RealmCleanupObservationView, RealmCleanupProgress, VerdictView,
};
use super::effects::called;
use super::errors::{network_message, NetworkErrorView};
use super::grants::{goes_on, lemma_called_earlier, lemma_called_later};
use super::records::{
    AcceptedOperationView, AuditOutcome, CanonicalAddressRealmRecordView,
    CanonicalOperationRecordView, CanonicalRealmBindingRecordView, OperationState,
};
use crate::vocabulary::qualified;
use crate::session::Stop;
use vstd::prelude::*;

verus! {

/// A word of the service: with the name of the service before it.
pub open spec fn named(word: Seq<char>) -> Seq<char> {
    "network:"@ + word
}

proof fn lemma_named(word: Seq<char>)
    ensures
        qualified(word) == named(word),
{
    reveal_strlit("network");
    reveal_strlit(":");
    reveal_strlit("network:");
    assert(qualified(word) =~= named(word));
}

// ---------------------------------------------------------------------------
// Decisions
// ---------------------------------------------------------------------------

/// A request that is granted was decided on and allowed: what was asked is the qualified action on
/// the qualified kind of resource, for the owner that the store named of the resource, or of its
/// parent where it is to be made, or for the client itself.
pub proof fn lemma_granted_request_was_allowed(
    scope: Seq<char>,
    action: Seq<char>,
    resource: Seq<char>,
    id: Option<u128>,
    parent: Option<(Seq<char>, u128)>,
    t: Log,
    u: Log,
)
    requires
        authorize_run(scope, action, resource, id, parent, t) == (u, Ok::<
            (),
            Stop<NetworkErrorView>,
        >(())),
    ensures
        u.issued.last() matches StoreCallView::Authorize(a, r, i, owner) && a == named(action)
            && r == named(resource) && i == id && (id is Some || parent is Some ==> owner_in(
            t.reply(),
        ) == Ok::<Option<Seq<char>>, Stop<NetworkErrorView>>(Some(owner))) && (id is None
            && parent is None ==> owner == scope),
        id matches Some(i) ==> u.issued[t.issued.len() as int] == StoreCallView::GetOwner(
            resource,
            i,
        ),
        id is None && parent is Some ==> u.issued[t.issued.len() as int]
            == StoreCallView::GetOwner(parent->Some_0.0, parent->Some_0.1),
        ({
            let asked = if id is Some || parent is Some {
                t.issued.len() as int + 1
            } else {
                t.issued.len() as int
            };
            &&& u.issued.len() == asked + 1
            &&& asked < t.replies.len()
            &&& t.replies[asked] == super::calls::StoreReplyView::Decision(Decision::Allowed)
        }),
{
    lemma_named(action);
    lemma_named(resource);
}

/// How a refused request is answered depends on the decision alone: what belongs to another or to
/// nobody is not found, a denied one is unauthorized, and what could not be decided on is invalid.
pub proof fn lemma_refusal_follows_the_decision(
    scope: Seq<char>,
    action: Seq<char>,
    resource: Seq<char>,
    id: Option<u128>,
    parent: Option<(Seq<char>, u128)>,
    t: Log,
    d: Decision,
    e: NetworkErrorView,
)
    requires
        owner_run(scope, resource, id, parent, t).1 is Ok,
        decision_in(owner_run(scope, resource, id, parent, t).0.reply()) == Ok::<
            Decision,
            Stop<NetworkErrorView>,
        >(d),
        authorize_run(scope, action, resource, id, parent, t).1 == Err::<
            (),
            Stop<NetworkErrorView>,
        >(Stop::Failed(e)),
    ensures
        match d {
            Decision::Allowed => false,
            Decision::ScopeMismatch => e == NetworkErrorView::NotFound,
            Decision::MissingOwnership => e == NetworkErrorView::NotFound,
            Decision::Denied(_) => e == NetworkErrorView::Unauthorized,
            Decision::Malformed => e == NetworkErrorView::InvalidRequest,
        },
{
}

/// A request about the client's own resources is granted only where it is allowed, and refused with
/// the given failure, or as invalid where it could not be decided on.
pub proof fn lemma_permission_follows_the_decision(
    scope: Seq<char>,
    action: Seq<char>,
    resource: Seq<char>,
    id: Option<u128>,
    refused: NetworkErrorView,
    t: Log,
    d: Decision,
)
    requires
        decision_in(t.reply()) == Ok::<Decision, Stop<NetworkErrorView>>(d),
    ensures
        permit_run(scope, action, resource, id, refused, t).0.issued[t.issued.len() as int]
            == StoreCallView::Authorize(named(action), named(resource), id, scope),
        permit_run(scope, action, resource, id, refused, t).1 is Ok <==> d == Decision::Allowed,
        d == Decision::Malformed ==> permit_run(scope, action, resource, id, refused, t).1
            == Err::<(), Stop<NetworkErrorView>>(Stop::Failed(NetworkErrorView::InvalidRequest)),
        permit_run(scope, action, resource, id, refused, t).1 matches Err(Stop::Failed(e)) ==> e
            == refused || (d == Decision::Malformed && e == NetworkErrorView::InvalidRequest),
{
    lemma_named(action);
    lemma_named(resource);
}

/// What is told of a request that has ended is what became of it: that it succeeded, or that it
/// failed and by which message; and it is answered as it ended.
pub proof fn lemma_end_is_told_as_it_was<T>(
    scope: Seq<char>,
    action: Seq<char>,
    resource: Seq<char>,
    id: Option<u128>,
    t: Log,
    result: Answer<T>,
)
    requires
        result != Err::<T, Stop<NetworkErrorView>>(Stop::Pending),
    ensures
        ({
            let (u, r) = audited(scope, action, resource, id, (t, result));
            &&& r == result || r == Err::<T, Stop<NetworkErrorView>>(Stop::Pending)
            &&& u.issued.len() == t.issued.len() + 1
            &&& u.issued.last() matches StoreCallView::Audit(x) && x.action == named(action)
                && x.resource == Some(named(resource)) && x.resource_id == id && x.owner
                == Some(scope) && x.decision is None && (x.outcome == AuditOutcome::Succeeded
                <==> result is Ok) && (x.outcome == AuditOutcome::Failed <==> result is Err) && (
            result matches Err(Stop::Failed(e)) ==> x.reason == Some(network_message(e))) && (
            result is Ok ==> x.reason is None)
        }),
        ({
            let (u, r) = noted(scope, action, resource, id, (t, result));
            &&& r == result || r == Err::<T, Stop<NetworkErrorView>>(Stop::Pending)
            &&& u.issued.len() == t.issued.len() + 1
            &&& u.issued.last() matches StoreCallView::Audit(x) && x.action == named(action)
                && (x.outcome == AuditOutcome::Succeeded <==> result is Ok) && (x.outcome
                == AuditOutcome::Failed <==> result is Err) && (
            result matches Err(Stop::Failed(e)) ==> x.reason == Some(network_message(e)))
        }),
{
    lemma_named(action);
    lemma_named(resource);
}

// ---------------------------------------------------------------------------
// Deletions of realms
// ---------------------------------------------------------------------------

/// Whether exactly one observation is about a binding, and it says that the binding is gone.
pub open spec fn is_seen_absent(
    realm_id: u128,
    b: CanonicalRealmBindingRecordView,
    os: Seq<RealmCleanupObservationView>,
) -> bool {
    exists|k: int|
        0 <= k < os.len() && #[trigger] os[k] == RealmCleanupObservationView::Absent(b)
            && b.realm_id == realm_id
}

/// Nothing is held to be absent but what was seen to be: where all bindings count as absent, each of
/// them is of the realm and was observed to be gone.
pub proof fn lemma_absence_was_seen(
    realm_id: u128,
    bindings: Seq<CanonicalRealmBindingRecordView>,
    os: Seq<RealmCleanupObservationView>,
    i: int,
    k: int,
)
    requires
        0 <= i <= k < bindings.len(),
        verdict(realm_id, bindings, os, i) == VerdictView::Absent,
    ensures
        is_seen_absent(realm_id, bindings[k], os),
    decreases bindings.len() - i,
{
    let which = about(realm_id, bindings[i], os);
    if k == i {
        let pred = |o: RealmCleanupObservationView| is_about(realm_id, bindings[i], o);
        assert(which == os.filter(pred));
        let o = which[0];
        os.lemma_filter_pred(pred, 0);
        lemma_filtered(os, pred, 0);
        let n = choose|n: int| 0 <= n < os.len() && os[n] == o;
        assert(os[n] == RealmCleanupObservationView::Absent(bindings[k]));
    } else {
        lemma_absence_was_seen(realm_id, bindings, os, i + 1, k);
    }
}

proof fn lemma_filtered<A>(s: Seq<A>, pred: spec_fn(A) -> bool, i: int)
    requires
        0 <= i < s.filter(pred).len(),
    ensures
        s.contains(s.filter(pred)[i]),
    decreases s.len(),
{
    reveal(Seq::filter);
    if s.len() > 0 {
        let head = s.drop_last();
        if i < head.filter(pred).len() {
            lemma_filtered(head, pred, i);
            let x = head.filter(pred)[i];
            let k = choose|k: int| 0 <= k < head.len() && head[k] == x;
            assert(s[k] == x);
        } else {
            assert(s[s.len() - 1] == s.filter(pred)[i]);
        }
    }
}

proof fn lemma_dropped(
    bindings: Seq<CanonicalRealmBindingRecordView>,
    generation: u64,
    i: int,
    t: Log,
)
    requires
        0 <= i <= bindings.len(),
        drop_bindings_run(bindings, generation, i, t).1 is Ok,
    ensures
        goes_on(t, drop_bindings_run(bindings, generation, i, t).0),
        forall|k: int|
            i <= k < bindings.len() ==> called(
                t,
                drop_bindings_run(bindings, generation, i, t).0,
                StoreCallView::DeleteRealmBinding(#[trigger] bindings[k], generation),
            ),
    decreases bindings.len() - i,
{
    if i < bindings.len() {
        let c = StoreCallView::DeleteRealmBinding(bindings[i], generation);
        let t1 = t.after(c);
        lemma_dropped(bindings, generation, i + 1, t1);
        let u = drop_bindings_run(bindings, generation, i + 1, t1).0;
        assert(t1.issued[t.issued.len() as int] == c);
        assert(called(t, t1, c));
        lemma_called_later(t, t1, u, c);
        assert(goes_on(t, t1));
        assert forall|k: int| i <= k < bindings.len() implies called(
            t,
            u,
            StoreCallView::DeleteRealmBinding(#[trigger] bindings[k], generation),
        ) by {
            if k > i {
                lemma_called_earlier(
                    t,
                    t1,
                    u,
                    StoreCallView::DeleteRealmBinding(bindings[k], generation),
                );
            }
        }
    }
}

/// Where a realm is removed, everything that providers held for it was seen to be gone, the record
/// of each such thing is removed, the realm is removed in its generation, and its operation has
/// ended well.
pub proof fn lemma_realm_is_removed(
    project_id: Seq<char>,
    realm_id: u128,
    realm: CanonicalAddressRealmRecordView,
    op: CanonicalOperationRecordView,
    os: Seq<RealmCleanupObservationView>,
    t: Log,
    u: Log,
    operation_id: u128,
    bindings: Seq<CanonicalRealmBindingRecordView>,
)
    requires
        judge_run(project_id, realm_id, realm, op, os, t) == (u, Ok::<
            RealmCleanupProgress,
            Stop<NetworkErrorView>,
        >(RealmCleanupProgress::Removed { operation_id })),
        bindings_in(t.reply()) == Ok::<
            Seq<CanonicalRealmBindingRecordView>,
            Stop<NetworkErrorView>,
        >(bindings),
    ensures
        os.len() == bindings.len(),
        forall|k: int|
            0 <= k < bindings.len() ==> is_seen_absent(realm_id, #[trigger] bindings[k], os)
                && called(t, u, StoreCallView::DeleteRealmBinding(bindings[k], realm.generation)),
        called(
            t,
            u,
            StoreCallView::FinalizeRealmDeletion(project_id, realm_id, realm.generation),
        ),
        u.issued.last() matches StoreCallView::UpdateLifecycle(o, x) && o == operation_id && x.state
            == OperationState::Succeeded && x.finished_at is Some && x.error is None,
{
    let t1 = t.after(StoreCallView::ListRealmBindings(realm_id));
    let t2 = drop_bindings_run(bindings, realm.generation, 0, t1).0;
    lemma_dropped(bindings, realm.generation, 0, t1);
    let c = StoreCallView::FinalizeRealmDeletion(project_id, realm_id, realm.generation);
    assert(goes_on(t, t1));
    assert(goes_on(t2, u));
    assert(u.issued[t2.issued.len() as int] == c);
    assert forall|k: int| 0 <= k < bindings.len() implies is_seen_absent(
        realm_id,
        #[trigger] bindings[k],
        os,
    ) && called(t, u, StoreCallView::DeleteRealmBinding(bindings[k], realm.generation)) by {
        lemma_absence_was_seen(realm_id, bindings, os, 0, k);
        let d = StoreCallView::DeleteRealmBinding(bindings[k], realm.generation);
        lemma_called_later(t1, t2, u, d);
        lemma_called_earlier(t, t1, u, d);
    }
}

/// Where a deletion begins, the active realm is marked in the generation that was found, its
/// lifecycle says that it is being deleted, and its operation runs for the first time.
pub proof fn lemma_deletion_begins(
    project_id: Seq<char>,
    realm: CanonicalAddressRealmRecordView,
    realm_id: u128,
    accepted: AcceptedOperationView,
    t: Log,
    u: Log,
    operation_id: u128,
    generation: u64,
)
    requires
        mark_deleting_run(project_id, realm, realm_id, accepted, t) == (u, Ok::<
            RealmCleanupProgress,
            Stop<NetworkErrorView>,
        >(RealmCleanupProgress::Deleting { operation_id, generation })),
    ensures
        operation_id == accepted.operation_id,
        tried_realm(t.reply()) matches Ok(Ok(now)) && now.generation == generation,
        u.issued.len() == t.issued.len() + 3,
        u.issued[t.issued.len() as int] == StoreCallView::BeginRealmDeletion(
            project_id,
            realm_id,
            realm.generation,
        ),
        u.issued[t.issued.len() as int + 1] matches StoreCallView::UpdateResource(
            i,
            expected,
            desired,
            observed,
            next,
        ) && i == realm_id && expected == realm.generation && desired == "deleting"@ && observed
            == "deleting"@ && next == generation,
        u.issued.last() matches StoreCallView::UpdateLifecycle(o, x) && o == operation_id && x.state
            == OperationState::Running && x.attempt == 1 && x.started_at == Some(
            accepted.created_at,
        ) && x.finished_at is None && x.error is None,
{
}

/// A deletion is not begun of a realm that is neither active nor being deleted: it is a conflict,
/// and the operation has failed.
pub proof fn lemma_odd_realm_is_not_deleted(
    project_id: Seq<char>,
    realm_id: u128,
    t: Log,
    realm: CanonicalAddressRealmRecordView,
)
    requires
        realm_in(t.reply()) == Ok::<
            Option<CanonicalAddressRealmRecordView>,
            Stop<NetworkErrorView>,
        >(Some(realm)),
        realm.state != "active"@,
        realm.state != "deleting"@,
    ensures
        begin_deletion_run(project_id, realm_id, t).1 is Err,
        forall|k: int|
            0 <= k < begin_deletion_run(project_id, realm_id, t).0.issued.len() ==> (
            k < t.issued.len() || !(
            #[trigger] begin_deletion_run(project_id, realm_id, t).0.issued[k] is BeginRealmDeletion)),
        begin_deletion_run(
            project_id,
            realm_id,
            t,
        ).0.issued.last() matches StoreCallView::UpdateOperation(_, state, _, _) ==> state
            == OperationState::Failed,
{
}

} // verus!
