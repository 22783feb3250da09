use vstd::prelude::*;

verus! {

/// Outcome reported to callers when a request could not be satisfied.
#[derive(Debug, PartialEq, Eq, Structural, Clone, Copy)]
pub enum AvifInfoError {
    /// The payload was correctly parsed so far but bytes are missing; the
    /// request may be repeated with a longer buffer.
    NotEnoughData,
    /// The payload was correctly parsed so far but a hard resource limit
    /// fired; parsing stopped to avoid timeouts.
    TooComplex,
    /// The payload cannot be reconciled with the AVIF format.
    InvalidFile,
}

/// Status produced while reading the content of a box or a file.
#[derive(Debug, PartialEq, Eq, Structural, Clone, Copy)]
pub enum InternalError {
    /// Input correctly parsed but the information is missing or elsewhere.
    NotFound,
    /// Input correctly parsed until bytes were missing to continue.
    Truncated,
    /// Input correctly parsed until stopped to avoid timeout or crash.
    Aborted,
    /// Input incorrectly parsed.
    Invalid,
}

/// How each internal status is reported through the public interface.
pub open spec fn spec_public_error(error: InternalError) -> AvifInfoError {
    match error {
        InternalError::NotFound => AvifInfoError::NotEnoughData,
        InternalError::Truncated => AvifInfoError::NotEnoughData,
        InternalError::Aborted => AvifInfoError::TooComplex,
        InternalError::Invalid => AvifInfoError::InvalidFile,
    }
}

impl From<InternalError> for AvifInfoError {
    fn from(error: InternalError) -> (r: Self)
        ensures
            r == spec_public_error(error),
    {
        match error {
            InternalError::NotFound | InternalError::Truncated => AvifInfoError::NotEnoughData,
            InternalError::Aborted => AvifInfoError::TooComplex,
            InternalError::Invalid => AvifInfoError::InvalidFile,
        }
    }
}

impl vstd::std_specs::convert::FromSpecImpl<InternalError> for AvifInfoError {
    open spec fn obeys_from_spec() -> bool {
        true
    }

    open spec fn from_spec(error: InternalError) -> Self {
        spec_public_error(error)
    }
}

} // verus!
