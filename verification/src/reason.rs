//! The registry of result codes carried in reply packets.
//!
//! A reason code travels as a signed 32-bit var; the numeric values are
//! stable on the wire.

use vstd::prelude::*;

verus! {

/// The outcome a reply packet reports.
#[derive(Clone, Copy, Debug, PartialEq, Eq, Structural)]
pub enum ReasonCode {
    /// The request was carried out.
    Success,
    /// No citizen record matches the request, or credentials failed.
    NoSuchCitizen,
    /// The caller lacks the right to make the request, or the request is
    /// illegal in the session's state.
    Unauthorized,
    /// The requested citizen name is already held by a different record.
    NameAlreadyUsed,
    /// The citizen record could not be written.
    UnableToChangeCitizen,
}

/// The wire value of a reason code.
pub open spec fn reason_code_value(rc: ReasonCode) -> i32 {
    match rc {
        ReasonCode::Success => 0,
        ReasonCode::NoSuchCitizen => 1,
        ReasonCode::Unauthorized => 2,
        ReasonCode::NameAlreadyUsed => 3,
        ReasonCode::UnableToChangeCitizen => 4,
    }
}

impl ReasonCode {
    /// The wire value of this reason code.
    pub fn as_i32(self) -> (r: i32)
        ensures
            r == reason_code_value(self),
    {
        match self {
            ReasonCode::Success => 0,
            ReasonCode::NoSuchCitizen => 1,
            ReasonCode::Unauthorized => 2,
            ReasonCode::NameAlreadyUsed => 3,
            ReasonCode::UnableToChangeCitizen => 4,
        }
    }
}

} // verus!
