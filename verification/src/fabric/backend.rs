//! The fabric of a host: its settings, its record and the plans that are realized.
use super::config::{LinuxFabricConfig, LinuxFabricConfigView, LinuxFabricError};
use super::plan::{NamespacedRoutedFabricPlan, NamespacedRoutedFabricPlanView};
use super::state::{ProviderState, ProviderStateView};
use crate::model::views;
use crate::session::Stop;
use vstd::prelude::*;

verus! {

/// How an operation of the fabric ends.
pub type FabricOutcome = Result<(), Stop<LinuxFabricError>>;

/// The fabric of a host.
#[derive(Clone, Debug, PartialEq, Eq)]
pub struct LinuxFabricBackend {
    pub config: LinuxFabricConfig,
    pub state: ProviderState,
    pub plans: Vec<NamespacedRoutedFabricPlan>,
}

/// The view of [`LinuxFabricBackend`].
#[verifier::ext_equal]
pub struct LinuxFabricBackendView {
    pub config: LinuxFabricConfigView,
    pub state: ProviderStateView,
    pub plans: Seq<NamespacedRoutedFabricPlanView>,
}

impl View for LinuxFabricBackend {
    type V = LinuxFabricBackendView;

    open spec fn view(&self) -> LinuxFabricBackendView {
        LinuxFabricBackendView {
            config: self.config@,
            state: self.state@,
            plans: views(self.plans@),
        }
    }
}

impl LinuxFabricBackendView {
    /// The fabric with another record.
    pub open spec fn with_state(self, state: ProviderStateView) -> LinuxFabricBackendView {
        LinuxFabricBackendView { state, ..self }
    }

    /// The tables of the fabric are in the order of their keys.
    pub open spec fn sorted(self) -> bool {
        self.state.sorted() && crate::table::id_sorted::<NamespacedRoutedFabricPlan>(self.plans)
    }
}

} // verus!
