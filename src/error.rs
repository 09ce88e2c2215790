use vstd::prelude::*;

verus! {

/// Whose fault a failure is: the request's own input, or the service's
/// dependencies.
#[derive(PartialEq, Eq, Structural, Clone, Copy, Debug)]
pub enum ErrorClass {
    Caller,
    Internal,
}

/// A failure as the service reports it: the underlying message and its class.
#[derive(Debug)]
pub struct ServiceError {
    pub message: String,
    pub class: ErrorClass,
}

impl ServiceError {
    /// A failure caused by the request's input.
    pub fn user(message: String) -> (r: ServiceError)
        ensures
            r.message == message,
            r.class == ErrorClass::Caller,
    {
        ServiceError { message, class: ErrorClass::Caller }
    }

    /// A failure of the service's own dependencies.
    pub fn internal(message: String) -> (r: ServiceError)
        ensures
            r.message == message,
            r.class == ErrorClass::Internal,
    {
        ServiceError { message, class: ErrorClass::Internal }
    }

    /// The HTTP status of the response that carries this failure.
    pub fn status_code(&self) -> (r: u16)
        ensures
            r == status_of(self.class),
    {
        match self.class {
            ErrorClass::Caller => 400,
            ErrorClass::Internal => 500,
        }
    }
}

/// Bad Request for the caller's faults, Internal Server Error for the rest.
pub open spec fn status_of(c: ErrorClass) -> u16 {
    match c {
        ErrorClass::Caller => 400,
        ErrorClass::Internal => 500,
    }
}

/// Why the upstream catalog could not be retrieved.
#[derive(Debug)]
pub enum FetchError {
    /// Transport failure: timeout, refused connection, non-success status.
    Unavailable(String),
    /// A response body that is not the expected shape.
    Decode(String),
}

/// Why a refresh attempt failed.
#[derive(Debug)]
pub enum RefreshError {
    Fetch(FetchError),
    /// The mirror could not be opened or written.
    Store(String),
}

/// Why a caller's query failed.
#[derive(Debug)]
pub enum QueryError {
    /// The statement did not prepare: malformed SQL, unknown table or column.
    Syntax(String),
    /// Reading the result rows failed.
    Execution(String),
    /// The mirror could not be opened.
    StoreIo(String),
}

/// The underlying message of a refresh failure.
pub open spec fn refresh_message(e: RefreshError) -> String {
    match e {
        RefreshError::Fetch(FetchError::Unavailable(m)) => m,
        RefreshError::Fetch(FetchError::Decode(m)) => m,
        RefreshError::Store(m) => m,
    }
}

/// The underlying message of a query failure.
pub open spec fn query_message(e: QueryError) -> String {
    match e {
        QueryError::Syntax(m) => m,
        QueryError::Execution(m) => m,
        QueryError::StoreIo(m) => m,
    }
}

/// The class of a query failure: bad SQL is the caller's, a store that
/// cannot be opened is the service's.
pub open spec fn query_class(e: QueryError) -> ErrorClass {
    match e {
        QueryError::Syntax(_) => ErrorClass::Caller,
        QueryError::Execution(_) => ErrorClass::Caller,
        QueryError::StoreIo(_) => ErrorClass::Internal,
    }
}

impl RefreshError {
    /// A refresh failure is never the caller's fault.
    pub fn into_service_error(self) -> (r: ServiceError)
        ensures
            r.class == ErrorClass::Internal,
            r.message == refresh_message(self),
    {
        let m = match self {
            RefreshError::Fetch(FetchError::Unavailable(m)) => m,
            RefreshError::Fetch(FetchError::Decode(m)) => m,
            RefreshError::Store(m) => m,
        };
        ServiceError::internal(m)
    }
}

impl QueryError {
    /// Surfaces a query failure with its message and class.
    pub fn into_service_error(self) -> (r: ServiceError)
        ensures
            r.class == query_class(self),
            r.message == query_message(self),
    {
        match self {
            QueryError::Syntax(m) => ServiceError::user(m),
            QueryError::Execution(m) => ServiceError::user(m),
            QueryError::StoreIo(m) => ServiceError::internal(m),
        }
    }
}

} // verus!
