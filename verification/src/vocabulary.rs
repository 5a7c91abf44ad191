//! The words by which requests, resources and quotas of the network service are known elsewhere.
use crate::text::join3;
use vstd::prelude::*;

verus! {

/// A word of the network service.
#[derive(Clone, Debug, PartialEq, Eq)]
pub struct NetworkTerm {
    pub name: String,
}

impl View for NetworkTerm {
    type V = Seq<char>;

    open spec fn view(&self) -> Seq<char> {
        self.name@
    }
}

/// A word with the name of the service before it.
pub open spec fn qualified(name: Seq<char>) -> Seq<char> {
    "network"@ + ":"@ + name
}

/// Computes [`qualified`].
pub fn qualified_of(name: &str) -> (r: String)
    ensures
        r@ == qualified(name@),
{
    join3("network", ":", name)
}

impl NetworkTerm {
    fn new(name: &str) -> (r: NetworkTerm)
        ensures
            r@ == name@,
    {
        NetworkTerm { name: name.to_owned() }
    }

    /// The word with the name of the service before it.
    pub fn text(&self) -> (r: String)
        ensures
            r@ == qualified(self@),
    {
        qualified_of(self.name.as_str())
    }
}

/// The vocabulary of the network service. No word of a provider is a part of it.
pub struct NetworkVocabulary;

/// The requests that are decided on.
pub open spec fn action_words() -> Seq<Seq<char>> {
    seq![
        "CreateNetworkIntent"@,
        "ReadNetworkIntent"@,
        "UpdateNetworkIntent"@,
        "DeleteNetworkIntent"@,
        "AllocateAddress"@,
        "ReleaseAddress"@,
    ]
}

/// The resources that requests are about.
pub open spec fn resource_words() -> Seq<Seq<char>> {
    seq!["network_intent"@, "endpoint"@, "address_allocation"@]
}

/// The quotas that are kept.
pub open spec fn quota_words() -> Seq<Seq<char>> {
    seq!["networks"@, "ports"@, "address_allocations"@]
}

impl NetworkVocabulary {
    /// The requests that are decided on.
    pub fn actions() -> (r: Vec<NetworkTerm>)
        ensures
            crate::model::views(r@) == action_words(),
    {
        let r = vec![
            NetworkTerm::new("CreateNetworkIntent"),
            NetworkTerm::new("ReadNetworkIntent"),
            NetworkTerm::new("UpdateNetworkIntent"),
            NetworkTerm::new("DeleteNetworkIntent"),
            NetworkTerm::new("AllocateAddress"),
            NetworkTerm::new("ReleaseAddress"),
        ];
        assert(crate::model::views(r@) =~= action_words());
        r
    }

    /// The resources that requests are about.
    pub fn resources() -> (r: Vec<NetworkTerm>)
        ensures
            crate::model::views(r@) == resource_words(),
    {
        let r = vec![
            NetworkTerm::new("network_intent"),
            NetworkTerm::new("endpoint"),
            NetworkTerm::new("address_allocation"),
        ];
        assert(crate::model::views(r@) =~= resource_words());
        r
    }

    /// The quotas that are kept.
    pub fn quota_keys() -> (r: Vec<NetworkTerm>)
        ensures
            crate::model::views(r@) == quota_words(),
    {
        let r = vec![
            NetworkTerm::new("networks"),
            NetworkTerm::new("ports"),
            NetworkTerm::new("address_allocations"),
        ];
        assert(crate::model::views(r@) =~= quota_words());
        r
    }
}

} // verus!
