//! The binding of ports to hosts.
use super::access::{found, halt, must_find};
use super::calls::{
    one, port_in, updated_port_in, Answer, Log, NetworkService, StoreCall, StoreCallView,
};
use super::errors::{NetworkError, NetworkErrorView};
use super::records::{PortRecord, PortRecordView};
use crate::model::view_opt;
use crate::session::Stop;
use crate::text::{is_blank, same, trim};
use vstd::prelude::*;

verus! {

/// The state of the binding of a port to the host that was selected for it. A port without a
/// state has no host.
#[derive(Clone, Copy, Debug, PartialEq, Eq, Structural)]
pub enum PortBindingState {
    /// A host was selected, and it is not known yet what came of it.
    Binding,
    /// The host realized the binding.
    Bound,
    /// The host did not realize the binding.
    Down,
    /// The host failed for good.
    Error,
}

/// The word that is stored for a state.
pub open spec fn state_word(s: PortBindingState) -> Seq<char> {
    match s {
        PortBindingState::Binding => "binding"@,
        PortBindingState::Bound => "bound"@,
        PortBindingState::Down => "down"@,
        PortBindingState::Error => "error"@,
    }
}

/// The state that a word stands for.
pub open spec fn state_value(s: Seq<char>) -> Option<PortBindingState> {
    if s == "binding"@ {
        Some(PortBindingState::Binding)
    } else if s == "bound"@ {
        Some(PortBindingState::Bound)
    } else if s == "down"@ {
        Some(PortBindingState::Down)
    } else if s == "error"@ {
        Some(PortBindingState::Error)
    } else {
        None
    }
}

impl PortBindingState {
    /// Computes [`state_word`].
    pub fn as_str(self) -> (r: &'static str)
        ensures
            r@ == state_word(self),
    {
        match self {
            PortBindingState::Binding => "binding",
            PortBindingState::Bound => "bound",
            PortBindingState::Down => "down",
            PortBindingState::Error => "error",
        }
    }

    /// Computes [`state_value`].
    pub fn parse(value: &str) -> (r: Option<Self>)
        ensures
            r == state_value(value@),
    {
        if same(value, "binding") {
            Some(PortBindingState::Binding)
        } else if same(value, "bound") {
            Some(PortBindingState::Bound)
        } else if same(value, "down") {
            Some(PortBindingState::Down)
        } else if same(value, "error") {
            Some(PortBindingState::Error)
        } else {
            None
        }
    }
}

/// A state that is written down is read back as it was.
pub proof fn lemma_state_round_trip(s: PortBindingState)
    ensures
        state_value(state_word(s)) == Some(s),
{
    reveal_strlit("binding");
    reveal_strlit("bound");
    reveal_strlit("down");
    reveal_strlit("error");
    assert("bound"@[0] == 'b' && "error"@[0] == 'e');
    assert("bound"@ != "error"@);
    assert("binding"@.len() == 7 && "bound"@.len() == 5 && "down"@.len() == 4);
}

/// Only the words of states are read, each as the state that it is the word of.
pub proof fn lemma_word_round_trip(w: Seq<char>)
    requires
        state_value(w) is Some,
    ensures
        state_word(state_value(w)->Some_0) == w,
{
}

// ---------------------------------------------------------------------------
// Transitions
// ---------------------------------------------------------------------------

/// The state of a port for which a host is selected. A realized binding stays realized: selecting
/// the host again is a repetition.
pub open spec fn next_state(state: Option<Seq<char>>) -> PortBindingState {
    match state {
        Some(w) => if state_value(w) == Some(PortBindingState::Bound) {
            PortBindingState::Bound
        } else {
            PortBindingState::Binding
        },
        None => PortBindingState::Binding,
    }
}

/// Finds a port as clients see it.
pub open spec fn stored_port_run(project_id: Seq<char>, port_id: u128, t: Log) -> (
    Log,
    Answer<PortRecordView>,
) {
    (t.after(StoreCallView::GetPort(project_id, port_id)), found(port_in(t.reply())))
}

/// Stores the host of a port and the state of its binding.
pub open spec fn bind_run(
    project_id: Seq<char>,
    port_id: u128,
    host: Option<Seq<char>>,
    state: Option<Seq<char>>,
    t: Log,
) -> (Log, Answer<PortRecordView>) {
    (
        t.after(StoreCallView::UpdatePortBinding(project_id, port_id, host, state)),
        updated_port_in(t.reply()),
    )
}

/// Records that a host was selected for a port. A port that has another host keeps it.
pub open spec fn record_intent_run(
    project_id: Seq<char>,
    port_id: u128,
    host: Seq<char>,
    t: Log,
) -> (Log, Answer<PortRecordView>) {
    if trim(host).len() == 0 {
        (t, halt(NetworkErrorView::InvalidRequest))
    } else {
        let (t1, got) = stored_port_run(project_id, port_id, t);
        match got {
            Err(stop) => (t1, Err(stop)),
            Ok(port) => if port.binding_host matches Some(current) && current != host {
                (t1, halt(NetworkErrorView::Conflict))
            } else {
                bind_run(
                    project_id,
                    port_id,
                    Some(host),
                    Some(state_word(next_state(port.binding_state))),
                    t1,
                )
            },
        }
    }
}

/// Records what the host of a port observed. What another host observed is refused, and so is
/// what is not a state.
pub open spec fn observe_binding_run(
    project_id: Seq<char>,
    port_id: u128,
    host: Seq<char>,
    state: Seq<char>,
    t: Log,
) -> (Log, Answer<PortRecordView>) {
    match state_value(state) {
        None => (t, halt(NetworkErrorView::InvalidRequest)),
        Some(s) => {
            let (t1, got) = stored_port_run(project_id, port_id, t);
            match got {
                Err(stop) => (t1, Err(stop)),
                Ok(port) => if port.binding_host != Some(host) {
                    (t1, halt(NetworkErrorView::Conflict))
                } else {
                    bind_run(project_id, port_id, Some(host), Some(state_word(s)), t1)
                },
            }
        },
    }
}

/// Records how the creation for which a host was selected ended. The selected host stays,
/// whoever reports.
pub open spec fn outcome_run(
    project_id: Seq<char>,
    port_id: u128,
    state: PortBindingState,
    t: Log,
) -> (Log, Answer<PortRecordView>) {
    if state != PortBindingState::Bound && state != PortBindingState::Error {
        (t, halt(NetworkErrorView::InvalidRequest))
    } else {
        let (t1, got) = stored_port_run(project_id, port_id, t);
        match got {
            Err(stop) => (t1, Err(stop)),
            Ok(port) => match port.binding_host {
                None => (t1, halt(NetworkErrorView::Conflict)),
                Some(host) => bind_run(
                    project_id,
                    port_id,
                    Some(host),
                    Some(state_word(state)),
                    t1,
                ),
            },
        }
    }
}

/// Takes the host from a port. A port without a host stays without one.
pub open spec fn unbind_run(project_id: Seq<char>, port_id: u128, t: Log) -> (
    Log,
    Answer<PortRecordView>,
) {
    let (t1, got) = stored_port_run(project_id, port_id, t);
    match got {
        Err(stop) => (t1, Err(stop)),
        Ok(_) => bind_run(project_id, port_id, None, None, t1),
    }
}

impl NetworkService {
    fn stored_port(&mut self, project_id: &str, port_id: u128) -> (r: Result<
        PortRecord,
        Stop<NetworkError>,
    >)
        ensures
            (final(self)@, one(r)) == stored_port_run(project_id@, port_id, old(self)@),
    {
        must_find(self.ask_port(StoreCall::GetPort(project_id.to_owned(), port_id)))
    }

    fn bind(
        &mut self,
        project_id: &str,
        port_id: u128,
        host: Option<String>,
        state: Option<String>,
    ) -> (r: Result<PortRecord, Stop<NetworkError>>)
        ensures
            (final(self)@, one(r)) == bind_run(
                project_id@,
                port_id,
                view_opt(host),
                view_opt(state),
                old(self)@,
            ),
    {
        self.ask_updated_port(
            StoreCall::UpdatePortBinding(project_id.to_owned(), port_id, host, state),
        )
    }

    /// Performs [`record_intent_run`].
    pub fn record_binding_intent(&mut self, project_id: &str, port_id: u128, host: &str) -> (r:
        Result<PortRecord, Stop<NetworkError>>)
        ensures
            (final(self)@, one(r)) == record_intent_run(
                project_id@,
                port_id,
                host@,
                old(self)@,
            ),
    {
        if is_blank(host) {
            return Err(Stop::Failed(NetworkError::InvalidRequest));
        }
        let port = match self.stored_port(project_id, port_id) {
            Err(stop) => return Err(stop),
            Ok(port) => port,
        };
        match &port.binding_host {
            Some(current) => {
                if !same(current.as_str(), host) {
                    return Err(Stop::Failed(NetworkError::Conflict));
                }
            },
            None => {},
        }
        let next = match &port.binding_state {
            Some(w) => match PortBindingState::parse(w.as_str()) {
                Some(PortBindingState::Bound) => PortBindingState::Bound,
                _ => PortBindingState::Binding,
            },
            None => PortBindingState::Binding,
        };
        self.bind(
            project_id,
            port_id,
            Some(host.to_owned()),
            Some(next.as_str().to_owned()),
        )
    }

    /// Performs [`observe_binding_run`].
    pub fn project_binding_observation(
        &mut self,
        project_id: &str,
        port_id: u128,
        host: &str,
        state: &str,
    ) -> (r: Result<PortRecord, Stop<NetworkError>>)
        ensures
            (final(self)@, one(r)) == observe_binding_run(
                project_id@,
                port_id,
                host@,
                state@,
                old(self)@,
            ),
    {
        let s = match PortBindingState::parse(state) {
            None => return Err(Stop::Failed(NetworkError::InvalidRequest)),
            Some(s) => s,
        };
        let port = match self.stored_port(project_id, port_id) {
            Err(stop) => return Err(stop),
            Ok(port) => port,
        };
        let matches_host = match &port.binding_host {
            Some(current) => same(current.as_str(), host),
            None => false,
        };
        if !matches_host {
            return Err(Stop::Failed(NetworkError::Conflict));
        }
        self.bind(project_id, port_id, Some(host.to_owned()), Some(s.as_str().to_owned()))
    }

    /// Performs [`outcome_run`].
    pub fn project_create_outcome(
        &mut self,
        project_id: &str,
        port_id: u128,
        state: PortBindingState,
    ) -> (r: Result<PortRecord, Stop<NetworkError>>)
        ensures
            (final(self)@, one(r)) == outcome_run(project_id@, port_id, state, old(self)@),
    {
        if state != PortBindingState::Bound && state != PortBindingState::Error {
            return Err(Stop::Failed(NetworkError::InvalidRequest));
        }
        let port = match self.stored_port(project_id, port_id) {
            Err(stop) => return Err(stop),
            Ok(port) => port,
        };
        match port.binding_host {
            None => Err(Stop::Failed(NetworkError::Conflict)),
            Some(host) => self.bind(
                project_id,
                port_id,
                Some(host),
                Some(state.as_str().to_owned()),
            ),
        }
    }

    /// Performs [`unbind_run`].
    pub fn unbind_port(&mut self, project_id: &str, port_id: u128) -> (r: Result<
        PortRecord,
        Stop<NetworkError>,
    >)
        ensures
            (final(self)@, one(r)) == unbind_run(project_id@, port_id, old(self)@),
    {
        match self.stored_port(project_id, port_id) {
            Err(stop) => Err(stop),
            Ok(_) => self.bind(project_id, port_id, None, None),
        }
    }
}

// ---------------------------------------------------------------------------
// Laws
// ---------------------------------------------------------------------------

/// Selecting the host again for a port whose binding is realized does not take that back: what is
/// stored is the same host and the same state.
pub proof fn lemma_bound_stays_bound(
    project_id: Seq<char>,
    port_id: u128,
    host: Seq<char>,
    t: Log,
)
    requires
        trim(host).len() > 0,
        stored_port_run(project_id, port_id, t).1 matches Ok(port) && port.binding_host == Some(
            host,
        ) && port.binding_state == Some("bound"@),
    ensures
        record_intent_run(project_id, port_id, host, t).0 == stored_port_run(
            project_id,
            port_id,
            t,
        ).0.after(
            StoreCallView::UpdatePortBinding(project_id, port_id, Some(host), Some("bound"@)),
        ),
{
    lemma_state_round_trip(PortBindingState::Bound);
}

/// No request moves a port from one host to another: every call that sets a host sets the one
/// that the port has, or finds none.
pub proof fn lemma_host_never_moves(
    project_id: Seq<char>,
    port_id: u128,
    host: Seq<char>,
    state: Seq<char>,
    outcome: PortBindingState,
    t: Log,
)
    requires
        stored_port_run(project_id, port_id, t).1 is Ok,
    ensures
        ({
            let t1 = stored_port_run(project_id, port_id, t).0;
            let port = stored_port_run(project_id, port_id, t).1->Ok_0;
            let a = record_intent_run(project_id, port_id, host, t).0;
            let b = observe_binding_run(project_id, port_id, host, state, t).0;
            let c = outcome_run(project_id, port_id, outcome, t).0;
            &&& (port.binding_host is Some && port.binding_host != Some(host)) ==> (a == t || a
                == t1) && (b == t || b == t1)
            &&& c == t || c == t1 || c == t1.after(
                StoreCallView::UpdatePortBinding(
                    project_id,
                    port_id,
                    port.binding_host,
                    Some(state_word(outcome)),
                ),
            )
        }),
{
}

/// Only the words of states are stored: what is not a state is refused before anything is asked
/// of the store.
pub proof fn lemma_free_form_state_is_refused(
    project_id: Seq<char>,
    port_id: u128,
    host: Seq<char>,
    state: Seq<char>,
    t: Log,
)
    requires
        state != "binding"@,
        state != "bound"@,
        state != "down"@,
        state != "error"@,
    ensures
        observe_binding_run(project_id, port_id, host, state, t) == (
            t,
            halt::<PortRecordView>(NetworkErrorView::InvalidRequest),
        ),
{
}

/// Taking the host from a port works whether or not it has one, and so can be repeated.
pub proof fn lemma_unbinding_can_be_repeated(project_id: Seq<char>, port_id: u128, t: Log)
    requires
        stored_port_run(project_id, port_id, t).1 is Ok,
    ensures
        unbind_run(project_id, port_id, t).0 == stored_port_run(project_id, port_id, t).0.after(
            StoreCallView::UpdatePortBinding(project_id, port_id, None, None),
        ),
        unbind_run(project_id, port_id, t).1 == updated_port_in(
            stored_port_run(project_id, port_id, t).0.reply(),
        ),
{
}

} // verus!
