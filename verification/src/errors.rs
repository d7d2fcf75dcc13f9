use vstd::prelude::*;

verus! {

/// Failure taxonomy of the ingestion core.
///
/// `BadRequest` is an input-level failure, `DuplicateTrackingId` an
/// expected conflict that is acknowledged silently, `NotFound` a missing
/// referenced entity, and `InternalServerError` an infrastructure or
/// unknown failure that is retried until the attempt cap.
/// `Unauthorized` and `Forbidden` arise only in the HTTP middleware.
#[derive(Clone, Debug)]
pub enum ServiceError {
    BadRequest(String),
    DuplicateTrackingId(String),
    NotFound(String),
    InternalServerError(String),
    Unauthorized,
    Forbidden,
}

impl ServiceError {
    /// The retry policy drops a job silently exactly on a duplicate
    /// tracking id; every other failure is handed back to the queue
    /// until the attempt cap.
    pub open spec fn spec_is_duplicate_tracking_id(&self) -> bool {
        self is DuplicateTrackingId
    }

    /// Whether the retry policy may re-enqueue a job that failed with
    /// this error.
    pub fn is_duplicate_tracking_id(&self) -> (r: bool)
        ensures
            r == self.spec_is_duplicate_tracking_id(),
    {
        match self {
            ServiceError::DuplicateTrackingId(_) => true,
            _ => false,
        }
    }

    /// A short description of the error, used in failure events.
    pub fn message(&self) -> (r: String)
        ensures
            r@ == self.spec_message(),
    {
        match self {
            ServiceError::BadRequest(m) => m.clone(),
            ServiceError::DuplicateTrackingId(t) => t.clone(),
            ServiceError::NotFound(m) => m.clone(),
            ServiceError::InternalServerError(m) => m.clone(),
            ServiceError::Unauthorized => "unauthorized".to_owned(),
            ServiceError::Forbidden => "forbidden".to_owned(),
        }
    }

    /// The text that `message` returns.
    pub open spec fn spec_message(&self) -> Seq<char> {
        match self {
            ServiceError::BadRequest(m) => m@,
            ServiceError::DuplicateTrackingId(t) => t@,
            ServiceError::NotFound(m) => m@,
            ServiceError::InternalServerError(m) => m@,
            ServiceError::Unauthorized => "unauthorized"@,
            ServiceError::Forbidden => "forbidden"@,
        }
    }
}

} // verus!
