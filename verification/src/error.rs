//! The ways in which a request fails.

use vstd::prelude::*;

verus! {

/// Why a request is not served. Each kind stands for one status code; what
/// went wrong inside the store is never part of it.
#[derive(Debug, PartialEq, Eq)]
pub enum RequestError {
    /// Nothing is known under the path.
    NotFound,
    /// An upload came without credentials.
    Unauthenticated,
    /// The credentials of an upload cannot be read.
    MalformedCredentials,
    /// The credentials of an upload are not those of the configured account.
    InvalidCredentials,
    /// The request cannot be served as it stands, such as an upload to the
    /// empty path.
    InvalidRequest,
    /// An upload does not say how long it is.
    MissingLength,
    /// An upload is longer than the configuration allows.
    PayloadTooLarge,
    /// The method, named here, is not served.
    MethodNotSupported(String),
    /// A listing was asked for where listings are switched off.
    IndexingDisabled,
    /// The store failed, or its answer cannot be used.
    StorageFailure,
}

/// What a `RequestError` holds.
pub enum ErrorView {
    NotFound,
    Unauthenticated,
    MalformedCredentials,
    InvalidCredentials,
    InvalidRequest,
    MissingLength,
    PayloadTooLarge,
    MethodNotSupported(Seq<char>),
    IndexingDisabled,
    StorageFailure,
}

impl View for RequestError {
    type V = ErrorView;

    open spec fn view(&self) -> ErrorView {
        match self {
            RequestError::NotFound => ErrorView::NotFound,
            RequestError::Unauthenticated => ErrorView::Unauthenticated,
            RequestError::MalformedCredentials => ErrorView::MalformedCredentials,
            RequestError::InvalidCredentials => ErrorView::InvalidCredentials,
            RequestError::InvalidRequest => ErrorView::InvalidRequest,
            RequestError::MissingLength => ErrorView::MissingLength,
            RequestError::PayloadTooLarge => ErrorView::PayloadTooLarge,
            RequestError::MethodNotSupported(method) => ErrorView::MethodNotSupported(method@),
            RequestError::IndexingDisabled => ErrorView::IndexingDisabled,
            RequestError::StorageFailure => ErrorView::StorageFailure,
        }
    }
}

impl ErrorView {
    /// The status code that this kind of failure is answered with.
    pub open spec fn status(self) -> int {
        match self {
            ErrorView::NotFound => 404,
            ErrorView::Unauthenticated => 401,
            ErrorView::MalformedCredentials => 403,
            ErrorView::InvalidCredentials => 403,
            ErrorView::InvalidRequest => 400,
            ErrorView::MissingLength => 411,
            ErrorView::PayloadTooLarge => 413,
            ErrorView::MethodNotSupported(_) => 400,
            ErrorView::IndexingDisabled => 405,
            ErrorView::StorageFailure => 500,
        }
    }
}

} // verus!
