//! Who may do what, and what is told of it.
use super::calls::{
    decision_in, heard, maybe, one, owner_in, unit, Answer, Decision, Log, NetworkService,
    StoreCall, StoreCallView,
};
use super::errors::{network_message, NetworkError, NetworkErrorView};
use super::records::{AuditOutcome, AuditRecord, AuditRecordView};
use crate::model::view_opt;
use crate::session::Stop;
use crate::vocabulary::{qualified, qualified_of};
use vstd::prelude::*;

verus! {

/// How a request stops that fails.
pub open spec fn halt<T>(e: NetworkErrorView) -> Answer<T> {
    Err(Stop::Failed(e))
}

/// What an answer comes to that has to be there.
pub open spec fn found<T>(a: Answer<Option<T>>) -> Answer<T> {
    match a {
        Err(stop) => Err(stop),
        Ok(Some(v)) => Ok(v),
        Ok(None) => halt(NetworkErrorView::NotFound),
    }
}

pub(crate) fn must_find<T: View>(r: Result<Option<T>, Stop<NetworkError>>) -> (f: Result<
    T,
    Stop<NetworkError>,
>)
    ensures
        one(f) == found(maybe(r)),
{
    match r {
        Err(stop) => Err(stop),
        Ok(Some(v)) => Ok(v),
        Ok(None) => Err(Stop::Failed(NetworkError::NotFound)),
    }
}

/// What is told of a request that was refused: what was decided on it, and by what words.
pub open spec fn denial(
    action: Seq<char>,
    resource: Option<Seq<char>>,
    resource_id: Option<u128>,
    owner: Option<Seq<char>>,
    decision: Decision,
) -> AuditRecordView {
    AuditRecordView {
        action: qualified(action),
        resource: match resource {
            Some(kind) => Some(qualified(kind)),
            None => None,
        },
        resource_id,
        owner,
        outcome: AuditOutcome::Denied,
        decision: Some(decision),
        reason: Some("unauthorized"@),
    }
}

/// How a refusal is answered: a resource of another, or of nobody, is not found.
pub open spec fn refusal(d: Decision) -> NetworkErrorView {
    match d {
        Decision::ScopeMismatch => NetworkErrorView::NotFound,
        Decision::MissingOwnership => NetworkErrorView::NotFound,
        _ => NetworkErrorView::Unauthorized,
    }
}

/// Finds out who owns what a request is about: the owner of the resource, or of the parent in
/// which one is to be made, or the client itself.
pub open spec fn owner_run(
    scope: Seq<char>,
    resource: Seq<char>,
    id: Option<u128>,
    parent: Option<(Seq<char>, u128)>,
    t: Log,
) -> (Log, Answer<Seq<char>>) {
    match (id, parent) {
        (Some(i), _) => (
            t.after(StoreCallView::GetOwner(resource, i)),
            found(owner_in(t.reply())),
        ),
        (None, Some((kind, i))) => (
            t.after(StoreCallView::GetOwner(kind, i)),
            found(owner_in(t.reply())),
        ),
        (None, None) => (t, Ok(scope)),
    }
}

/// Decides on a request. A refusal is told, and a request for what belongs to another is
/// answered as if it were not there.
pub open spec fn authorize_run(
    scope: Seq<char>,
    action: Seq<char>,
    resource: Seq<char>,
    id: Option<u128>,
    parent: Option<(Seq<char>, u128)>,
    t: Log,
) -> (Log, Answer<()>) {
    let (t1, whose) = owner_run(scope, resource, id, parent, t);
    match whose {
        Err(stop) => (t1, Err(stop)),
        Ok(owner) => {
            let t2 = t1.after(
                StoreCallView::Authorize(qualified(action), qualified(resource), id, owner),
            );
            match decision_in(t1.reply()) {
                Err(stop) => (t2, Err(stop)),
                Ok(Decision::Allowed) => (t2, Ok(())),
                Ok(Decision::Malformed) => (t2, halt(NetworkErrorView::InvalidRequest)),
                Ok(d) => {
                    let t3 = t2.after(
                        StoreCallView::Audit(denial(action, Some(resource), id, Some(owner), d)),
                    );
                    match heard(t2.reply()) {
                        Err(stop) => (t3, Err(stop)),
                        Ok(()) => (t3, halt(refusal(d))),
                    }
                },
            }
        },
    }
}

/// Decides on a request about what the client itself owns. A refusal is told, and answered with
/// the given failure.
pub open spec fn permit_run(
    scope: Seq<char>,
    action: Seq<char>,
    resource: Seq<char>,
    id: Option<u128>,
    refused: NetworkErrorView,
    t: Log,
) -> (Log, Answer<()>) {
    let t1 = t.after(
        StoreCallView::Authorize(qualified(action), qualified(resource), id, scope),
    );
    match decision_in(t.reply()) {
        Err(stop) => (t1, Err(stop)),
        Ok(Decision::Allowed) => (t1, Ok(())),
        Ok(Decision::Malformed) => (t1, halt(NetworkErrorView::InvalidRequest)),
        Ok(d) => {
            let t2 = t1.after(StoreCallView::Audit(denial(action, None, None, None, d)));
            match heard(t1.reply()) {
                Err(stop) => (t2, Err(stop)),
                Ok(()) => (t2, halt(refused)),
            }
        },
    }
}

/// What is told of a request that was granted.
pub open spec fn outcome_record<T>(
    scope: Seq<char>,
    action: Seq<char>,
    resource: Seq<char>,
    id: Option<u128>,
    result: Answer<T>,
) -> AuditRecordView {
    AuditRecordView {
        action: qualified(action),
        resource: Some(qualified(resource)),
        resource_id: id,
        owner: Some(scope),
        outcome: if result is Ok {
            AuditOutcome::Succeeded
        } else {
            AuditOutcome::Failed
        },
        decision: None,
        reason: match result {
            Err(Stop::Failed(e)) => Some(network_message(e)),
            _ => None,
        },
    }
}

/// Tells what became of a request, once it has ended.
pub open spec fn audited<T>(
    scope: Seq<char>,
    action: Seq<char>,
    resource: Seq<char>,
    id: Option<u128>,
    step: (Log, Answer<T>),
) -> (Log, Answer<T>) {
    let (t, result) = step;
    if result == Err::<T, Stop<NetworkErrorView>>(Stop::Pending) {
        (t, result)
    } else {
        (
            t.after(
                StoreCallView::Audit(outcome_record(scope, action, resource, id, result)),
            ),
            match heard(t.reply()) {
                Err(stop) => Err(stop),
                Ok(()) => result,
            },
        )
    }
}

/// Tells what became of a request, once it has ended. Of a failure only the reason is told; of a
/// success also the resource, by the given identifier.
pub open spec fn noted<T>(
    scope: Seq<char>,
    action: Seq<char>,
    resource: Seq<char>,
    id: Option<u128>,
    step: (Log, Answer<T>),
) -> (Log, Answer<T>) {
    let (t, result) = step;
    match result {
        Err(Stop::Pending) => (t, result),
        Err(Stop::Failed(e)) => (
            t.after(
                StoreCallView::Audit(
                    AuditRecordView {
                        action: qualified(action),
                        resource: None,
                        resource_id: None,
                        owner: None,
                        outcome: AuditOutcome::Failed,
                        decision: None,
                        reason: Some(network_message(e)),
                    },
                ),
            ),
            match heard(t.reply()) {
                Err(stop) => Err(stop),
                Ok(()) => result,
            },
        ),
        Ok(_) => (
            t.after(
                StoreCallView::Audit(outcome_record(scope, action, resource, id, result)),
            ),
            match heard(t.reply()) {
                Err(stop) => Err(stop),
                Ok(()) => result,
            },
        ),
    }
}

fn some_text(s: &str) -> (r: Option<String>)
    ensures
        view_opt(r) == Some(s@),
{
    Some(s.to_owned())
}

impl NetworkService {
    fn owner_of(
        &mut self,
        scope: &str,
        resource: &str,
        id: Option<u128>,
        parent: Option<(&str, u128)>,
    ) -> (r: Result<String, Stop<NetworkError>>)
        ensures
            (final(self)@, one(r)) == owner_run(
                scope@,
                resource@,
                id,
                match parent {
                    Some((kind, i)) => Some((kind@, i)),
                    None => None,
                },
                old(self)@,
            ),
    {
        match id {
            Some(i) => must_find(self.ask_owner(StoreCall::GetOwner(resource.to_owned(), i))),
            None => match parent {
                Some((kind, i)) => must_find(
                    self.ask_owner(StoreCall::GetOwner(kind.to_owned(), i)),
                ),
                None => Ok(scope.to_owned()),
            },
        }
    }

    /// Performs [`authorize_run`].
    pub(crate) fn authorize_canonical_action(
        &mut self,
        scope: &str,
        action: &str,
        resource: &str,
        id: Option<u128>,
        parent: Option<(&str, u128)>,
    ) -> (r: Result<(), Stop<NetworkError>>)
        ensures
            (final(self)@, unit(r)) == authorize_run(
                scope@,
                action@,
                resource@,
                id,
                match parent {
                    Some((kind, i)) => Some((kind@, i)),
                    None => None,
                },
                old(self)@,
            ),
    {
        let owner = match self.owner_of(scope, resource, id, parent) {
            Err(stop) => return Err(stop),
            Ok(owner) => owner,
        };
        let decision = match self.ask_decision(
            StoreCall::Authorize(qualified_of(action), qualified_of(resource), id, owner.clone()),
        ) {
            Err(stop) => return Err(stop),
            Ok(decision) => decision,
        };
        match decision {
            Decision::Allowed => return Ok(()),
            Decision::Malformed => return Err(Stop::Failed(NetworkError::InvalidRequest)),
            _ => {},
        }
        let record = AuditRecord {
            action: qualified_of(action),
            resource: Some(qualified_of(resource)),
            resource_id: id,
            owner: Some(owner),
            outcome: AuditOutcome::Denied,
            decision: Some(decision),
            reason: some_text("unauthorized"),
        };
        match self.tell(StoreCall::Audit(record)) {
            Err(stop) => Err(stop),
            Ok(()) => match decision {
                Decision::ScopeMismatch => Err(Stop::Failed(NetworkError::NotFound)),
                Decision::MissingOwnership => Err(Stop::Failed(NetworkError::NotFound)),
                _ => Err(Stop::Failed(NetworkError::Unauthorized)),
            },
        }
    }

    /// Performs [`permit_run`].
    pub(crate) fn permit(
        &mut self,
        scope: &str,
        action: &str,
        resource: &str,
        id: Option<u128>,
        refused: NetworkError,
    ) -> (r: Result<(), Stop<NetworkError>>)
        ensures
            (final(self)@, unit(r)) == permit_run(
                scope@,
                action@,
                resource@,
                id,
                refused@,
                old(self)@,
            ),
    {
        let decision = match self.ask_decision(
            StoreCall::Authorize(qualified_of(action), qualified_of(resource), id, scope.to_owned()),
        ) {
            Err(stop) => return Err(stop),
            Ok(decision) => decision,
        };
        match decision {
            Decision::Allowed => return Ok(()),
            Decision::Malformed => return Err(Stop::Failed(NetworkError::InvalidRequest)),
            _ => {},
        }
        let record = AuditRecord {
            action: qualified_of(action),
            resource: None,
            resource_id: None,
            owner: None,
            outcome: AuditOutcome::Denied,
            decision: Some(decision),
            reason: some_text("unauthorized"),
        };
        match self.tell(StoreCall::Audit(record)) {
            Err(stop) => Err(stop),
            Ok(()) => Err(Stop::Failed(refused)),
        }
    }

    /// Tells what became of a request, as [`audited`] says.
    pub(crate) fn audit_canonical_result<T>(
        &mut self,
        scope: &str,
        action: &str,
        resource: &str,
        id: Option<u128>,
        result: Result<T, Stop<NetworkError>>,
    ) -> (r: Result<T, Stop<NetworkError>>)
        ensures
            match result {
                Err(Stop::Pending) => final(self)@ == old(self)@ && r == result,
                Err(Stop::Failed(e)) => final(self)@ == old(self)@.after(
                    StoreCallView::Audit(
                        outcome_record(
                            scope@,
                            action@,
                            resource@,
                            id,
                            Err::<T, Stop<NetworkErrorView>>(Stop::Failed(e@)),
                        ),
                    ),
                ),
                Ok(v) => final(self)@ == old(self)@.after(
                    StoreCallView::Audit(
                        outcome_record(
                            scope@,
                            action@,
                            resource@,
                            id,
                            Ok::<T, Stop<NetworkErrorView>>(v),
                        ),
                    ),
                ),
            },
            result != Err::<T, Stop<NetworkError>>(Stop::Pending) ==> r == (if old(
                self,
            )@.reply() is None {
                Err::<T, Stop<NetworkError>>(Stop::Pending)
            } else {
                result
            }),
    {
        let reason: Option<String> = match &result {
            Err(Stop::Pending) => return result,
            Err(Stop::Failed(e)) => Some(e.message()),
            Ok(_) => None,
        };
        let outcome = if result.is_ok() {
            AuditOutcome::Succeeded
        } else {
            AuditOutcome::Failed
        };
        let record = AuditRecord {
            action: qualified_of(action),
            resource: Some(qualified_of(resource)),
            resource_id: id,
            owner: some_text(scope),
            outcome,
            decision: None,
            reason,
        };
        match self.tell(StoreCall::Audit(record)) {
            Err(stop) => Err(stop),
            Ok(()) => result,
        }
    }

    /// Tells what became of a request, as [`noted`] says.
    pub(crate) fn note_result<T>(
        &mut self,
        scope: &str,
        action: &str,
        resource: &str,
        id: Option<u128>,
        result: Result<T, Stop<NetworkError>>,
    ) -> (r: Result<T, Stop<NetworkError>>)
        ensures
            match result {
                Err(Stop::Pending) => final(self)@ == old(self)@ && r == result,
                Err(Stop::Failed(e)) => final(self)@ == old(self)@.after(
                    StoreCallView::Audit(
                        AuditRecordView {
                            action: qualified(action@),
                            resource: None,
                            resource_id: None,
                            owner: None,
                            outcome: AuditOutcome::Failed,
                            decision: None,
                            reason: Some(network_message(e@)),
                        },
                    ),
                ),
                Ok(v) => final(self)@ == old(self)@.after(
                    StoreCallView::Audit(
                        outcome_record(
                            scope@,
                            action@,
                            resource@,
                            id,
                            Ok::<T, Stop<NetworkErrorView>>(v),
                        ),
                    ),
                ),
            },
            result != Err::<T, Stop<NetworkError>>(Stop::Pending) ==> r == (if old(
                self,
            )@.reply() is None {
                Err::<T, Stop<NetworkError>>(Stop::Pending)
            } else {
                result
            }),
    {
        let record = match &result {
            Err(Stop::Pending) => return result,
            Err(Stop::Failed(e)) => AuditRecord {
                action: qualified_of(action),
                resource: None,
                resource_id: None,
                owner: None,
                outcome: AuditOutcome::Failed,
                decision: None,
                reason: Some(e.message()),
            },
            Ok(_) => AuditRecord {
                action: qualified_of(action),
                resource: Some(qualified_of(resource)),
                resource_id: id,
                owner: some_text(scope),
                outcome: AuditOutcome::Succeeded,
                decision: None,
                reason: None,
            },
        };
        match self.tell(StoreCall::Audit(record)) {
            Err(stop) => Err(stop),
            Ok(()) => result,
        }
    }
}

// ---------------------------------------------------------------------------
// Laws
// ---------------------------------------------------------------------------

/// Whether a call belongs to the decision on a request.
pub open spec fn decides(call: StoreCallView) -> bool {
    call is GetOwner || call is Authorize || call is Audit
}

/// Whether all calls from the one at `from` on belong to the decision on a request.
pub open spec fn only_decides(t: Log, from: int) -> bool {
    forall|i: int| from <= i < t.issued.len() ==> decides(#[trigger] t.issued[i])
}

/// A request that is refused touches no record: only the owner was looked up, the decision was
/// asked for, and the refusal was told.
pub proof fn lemma_refused_request_touches_nothing(
    scope: Seq<char>,
    action: Seq<char>,
    resource: Seq<char>,
    id: Option<u128>,
    parent: Option<(Seq<char>, u128)>,
    refused: NetworkErrorView,
    t: Log,
)
    ensures
        only_decides(
            authorize_run(scope, action, resource, id, parent, t).0,
            t.issued.len() as int,
        ),
        only_decides(
            permit_run(scope, action, resource, id, refused, t).0,
            t.issued.len() as int,
        ),
{
}

/// What belongs to another is answered like what is not there.
pub proof fn lemma_foreign_resource_is_not_found(
    scope: Seq<char>,
    action: Seq<char>,
    resource: Seq<char>,
    id: u128,
    t: Log,
)
    requires
        ({
            let t1 = t.after(StoreCallView::GetOwner(resource, id));
            decision_in(t1.reply()) == Ok::<Decision, Stop<NetworkErrorView>>(
                Decision::ScopeMismatch,
            )
        }),
        found(owner_in(t.reply())) is Ok,
    ensures
        authorize_run(scope, action, resource, Some(id), None, t).1 == Err::<
            (),
            Stop<NetworkErrorView>,
        >(Stop::Pending) || authorize_run(scope, action, resource, Some(id), None, t).1 == halt::<
            (),
        >(NetworkErrorView::NotFound),
{
}

/// A request that is refused is told with what was decided on it, and no other request is told as
/// refused: the last call is the record of the refusal.
pub proof fn lemma_refusal_is_told_with_its_decision(
    scope: Seq<char>,
    action: Seq<char>,
    resource: Seq<char>,
    id: Option<u128>,
    parent: Option<(Seq<char>, u128)>,
    refused: NetworkErrorView,
    t: Log,
)
    ensures
        ({
            let (t1, whose) = owner_run(scope, resource, id, parent, t);
            let told = authorize_run(scope, action, resource, id, parent, t).0.issued.last();
            match (whose, decision_in(t1.reply())) {
                (Ok(owner), Ok(d)) => if d == Decision::Allowed || d == Decision::Malformed {
                    !(told is Audit)
                } else {
                    told == StoreCallView::Audit(
                        denial(action, Some(resource), id, Some(owner), d),
                    )
                },
                _ => true,
            }
        }),
        ({
            let told = permit_run(scope, action, resource, id, refused, t).0.issued.last();
            match decision_in(t.reply()) {
                Ok(d) => if d == Decision::Allowed || d == Decision::Malformed {
                    !(told is Audit)
                } else {
                    told == StoreCallView::Audit(denial(action, None, None, None, d))
                },
                _ => true,
            }
        }),
{
}

/// A request that was granted and has ended is told, whatever became of it.
pub proof fn lemma_granted_request_is_told<T>(
    scope: Seq<char>,
    action: Seq<char>,
    resource: Seq<char>,
    id: Option<u128>,
    step: (Log, Answer<T>),
)
    requires
        step.1 != Err::<T, Stop<NetworkErrorView>>(Stop::Pending),
    ensures
        audited(scope, action, resource, id, step).0.issued.last() == StoreCallView::Audit(
            outcome_record(scope, action, resource, id, step.1),
        ),
        noted(scope, action, resource, id, step).0.issued.last() is Audit,
{
}

} // verus!
