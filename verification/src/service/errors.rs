//! The ways in which the store and the service fail.
use crate::render::{decimal, decimal_of};
use vstd::prelude::*;
use vstd::string::StringExecFns;

verus! {

/// Why a call of the store failed.
#[derive(Clone, Debug, PartialEq, Eq)]
pub enum StoreError {
    ResourceAlreadyExists,
    NetworkNotFound,
    ResourceNotFound,
    NetworkInUse,
    OwnershipConflict,
    QuotaExceeded { key: String, limit: String, used: u64, requested: u64 },
    ReservationConflict,
    /// Any other reason.
    Other,
}

/// The view of [`StoreError`].
#[verifier::ext_equal]
pub enum StoreErrorView {
    ResourceAlreadyExists,
    NetworkNotFound,
    ResourceNotFound,
    NetworkInUse,
    OwnershipConflict,
    QuotaExceeded { key: Seq<char>, limit: Seq<char>, used: u64, requested: u64 },
    ReservationConflict,
    Other,
}

impl View for StoreError {
    type V = StoreErrorView;

    open spec fn view(&self) -> StoreErrorView {
        match *self {
            StoreError::ResourceAlreadyExists => StoreErrorView::ResourceAlreadyExists,
            StoreError::NetworkNotFound => StoreErrorView::NetworkNotFound,
            StoreError::ResourceNotFound => StoreErrorView::ResourceNotFound,
            StoreError::NetworkInUse => StoreErrorView::NetworkInUse,
            StoreError::OwnershipConflict => StoreErrorView::OwnershipConflict,
            StoreError::QuotaExceeded { key, limit, used, requested } => StoreErrorView::QuotaExceeded {
                key: key@,
                limit: limit@,
                used,
                requested,
            },
            StoreError::ReservationConflict => StoreErrorView::ReservationConflict,
            StoreError::Other => StoreErrorView::Other,
        }
    }
}

/// A failed call of the store: why, and in what words.
#[derive(Clone, Debug, PartialEq, Eq)]
pub struct StoreFailure {
    pub error: StoreError,
    pub message: String,
}

/// The view of [`StoreFailure`].
#[verifier::ext_equal]
pub struct StoreFailureView {
    pub error: StoreErrorView,
    pub message: Seq<char>,
}

impl View for StoreFailure {
    type V = StoreFailureView;

    open spec fn view(&self) -> StoreFailureView {
        StoreFailureView { error: self.error@, message: self.message@ }
    }
}

impl StoreFailure {
    /// A copy of the failure.
    pub fn copy(&self) -> (r: StoreFailure)
        ensures
            r@ == self@,
    {
        let error = match &self.error {
            StoreError::ResourceAlreadyExists => StoreError::ResourceAlreadyExists,
            StoreError::NetworkNotFound => StoreError::NetworkNotFound,
            StoreError::ResourceNotFound => StoreError::ResourceNotFound,
            StoreError::NetworkInUse => StoreError::NetworkInUse,
            StoreError::OwnershipConflict => StoreError::OwnershipConflict,
            StoreError::QuotaExceeded { key, limit, used, requested } => StoreError::QuotaExceeded {
                key: key.clone(),
                limit: limit.clone(),
                used: *used,
                requested: *requested,
            },
            StoreError::ReservationConflict => StoreError::ReservationConflict,
            StoreError::Other => StoreError::Other,
        };
        StoreFailure { error, message: self.message.clone() }
    }
}

/// The failure of a call that was answered with something else than its kind of answer.
pub open spec fn unexpected() -> StoreFailureView {
    StoreFailureView { error: StoreErrorView::Other, message: "unexpected reply"@ }
}

pub(crate) fn unexpected_failure() -> (r: StoreFailure)
    ensures
        r@ == unexpected(),
{
    StoreFailure { error: StoreError::Other, message: "unexpected reply".to_owned() }
}

/// A way in which the service fails.
#[derive(Clone, Debug, PartialEq, Eq)]
pub enum NetworkError {
    Unauthorized,
    NotFound,
    Conflict,
    InvalidRequest,
    QuotaExceeded { key: String, limit: String, used: u64, requested: u64 },
    PoolExhausted,
    /// The store failed, in these words.
    Store(String),
    CorruptMetadata,
}

/// The view of [`NetworkError`].
#[verifier::ext_equal]
pub enum NetworkErrorView {
    Unauthorized,
    NotFound,
    Conflict,
    InvalidRequest,
    QuotaExceeded { key: Seq<char>, limit: Seq<char>, used: u64, requested: u64 },
    PoolExhausted,
    Store(Seq<char>),
    CorruptMetadata,
}

impl View for NetworkError {
    type V = NetworkErrorView;

    open spec fn view(&self) -> NetworkErrorView {
        match *self {
            NetworkError::Unauthorized => NetworkErrorView::Unauthorized,
            NetworkError::NotFound => NetworkErrorView::NotFound,
            NetworkError::Conflict => NetworkErrorView::Conflict,
            NetworkError::InvalidRequest => NetworkErrorView::InvalidRequest,
            NetworkError::QuotaExceeded { key, limit, used, requested } => NetworkErrorView::QuotaExceeded {
                key: key@,
                limit: limit@,
                used,
                requested,
            },
            NetworkError::PoolExhausted => NetworkErrorView::PoolExhausted,
            NetworkError::Store(s) => NetworkErrorView::Store(s@),
            NetworkError::CorruptMetadata => NetworkErrorView::CorruptMetadata,
        }
    }
}

/// The message of a failure.
pub open spec fn network_message(e: NetworkErrorView) -> Seq<char> {
    match e {
        NetworkErrorView::Unauthorized => "unauthorized"@,
        NetworkErrorView::NotFound => "network resource not found"@,
        NetworkErrorView::Conflict => "network resource already exists or is still in use"@,
        NetworkErrorView::InvalidRequest => "network request is invalid"@,
        NetworkErrorView::QuotaExceeded { key, limit, used, requested } => "quota exceeded for "@
            + key + ": limit "@ + limit + ", used "@ + decimal(used as nat) + ", requested "@
            + decimal(requested as nat),
        NetworkErrorView::PoolExhausted => "subnet allocation pool is exhausted"@,
        NetworkErrorView::Store(_) => "network store error"@,
        NetworkErrorView::CorruptMetadata => "network metadata is corrupt"@,
    }
}

impl NetworkError {
    /// Computes [`network_message`].
    pub fn message(&self) -> (r: String)
        ensures
            r@ == network_message(self@),
    {
        match self {
            NetworkError::Unauthorized => "unauthorized".to_owned(),
            NetworkError::NotFound => "network resource not found".to_owned(),
            NetworkError::Conflict => "network resource already exists or is still in use".to_owned(),
            NetworkError::InvalidRequest => "network request is invalid".to_owned(),
            NetworkError::QuotaExceeded { key, limit, used, requested } => {
                let mut out = "quota exceeded for ".to_owned();
                out.append(key.as_str());
                out.append(": limit ");
                out.append(limit.as_str());
                out.append(", used ");
                out.append(decimal_of(*used as u128).as_str());
                out.append(", requested ");
                out.append(decimal_of(*requested as u128).as_str());
                out
            },
            NetworkError::PoolExhausted => "subnet allocation pool is exhausted".to_owned(),
            NetworkError::Store(_) => "network store error".to_owned(),
            NetworkError::CorruptMetadata => "network metadata is corrupt".to_owned(),
        }
    }
}

/// What the service reports of a failed call of the store.
pub open spec fn map_failure(f: StoreFailureView) -> NetworkErrorView {
    match f.error {
        StoreErrorView::ResourceAlreadyExists => NetworkErrorView::Conflict,
        StoreErrorView::NetworkNotFound => NetworkErrorView::NotFound,
        StoreErrorView::ResourceNotFound => NetworkErrorView::NotFound,
        StoreErrorView::NetworkInUse => NetworkErrorView::Conflict,
        StoreErrorView::OwnershipConflict => NetworkErrorView::InvalidRequest,
        StoreErrorView::QuotaExceeded { key, limit, used, requested } => NetworkErrorView::QuotaExceeded {
            key,
            limit,
            used,
            requested,
        },
        StoreErrorView::ReservationConflict => NetworkErrorView::Conflict,
        StoreErrorView::Other => NetworkErrorView::Store(f.message),
    }
}

/// Computes [`map_failure`].
pub fn map_store_error(failure: &StoreFailure) -> (r: NetworkError)
    ensures
        r@ == map_failure(failure@),
{
    match &failure.error {
        StoreError::ResourceAlreadyExists => NetworkError::Conflict,
        StoreError::NetworkNotFound => NetworkError::NotFound,
        StoreError::ResourceNotFound => NetworkError::NotFound,
        StoreError::NetworkInUse => NetworkError::Conflict,
        StoreError::OwnershipConflict => NetworkError::InvalidRequest,
        StoreError::QuotaExceeded { key, limit, used, requested } => NetworkError::QuotaExceeded {
            key: key.clone(),
            limit: limit.clone(),
            used: *used,
            requested: *requested,
        },
        StoreError::ReservationConflict => NetworkError::Conflict,
        StoreError::Other => NetworkError::Store(failure.message.clone()),
    }
}

} // verus!
