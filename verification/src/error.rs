//! Error codes shared with the engine, and the errors of command execution.
use vstd::prelude::*;

verus! {

/// An operating-system error as the engine reports it.
#[derive(Debug, Clone, Copy, PartialEq, Eq, Structural)]
pub enum OsError {
    NoMem,
    Invalid,
    InvalidParameter,
    NotAligned,
    BadMutex,
    Timeout,
    ErrInISR,
    ErrPriviliged,
    NotStarted,
    NoEnt,
    Busy,
    Error,
}

/// Why a command did not produce its result.
#[derive(Debug, Clone, Copy, PartialEq, Eq, Structural)]
pub enum CmdError {
    /// The controller answered with this non-zero HCI status.
    Hci(u8),
    /// The transport failed before an answer could be used.
    Io(OsError),
}

/// HCI status "Invalid HCI Command Parameters".
pub const INVALID_HCI_PARAMETERS: u8 = 0x12;

impl OsError {
    /// The numeric code of an error.
    pub open spec fn spec_code(self) -> u32 {
        match self {
            OsError::NoMem => 1,
            OsError::Invalid => 2,
            OsError::InvalidParameter => 3,
            OsError::NotAligned => 4,
            OsError::BadMutex => 5,
            OsError::Timeout => 6,
            OsError::ErrInISR => 7,
            OsError::ErrPriviliged => 8,
            OsError::NotStarted => 9,
            OsError::NoEnt => 10,
            OsError::Busy => 11,
            OsError::Error => 12,
        }
    }

    /// The error that a numeric code stands for; every unknown code is the
    /// generic error.
    pub open spec fn spec_from(value: u32) -> OsError {
        if value == 1 {
            OsError::NoMem
        } else if value == 2 {
            OsError::Invalid
        } else if value == 3 {
            OsError::InvalidParameter
        } else if value == 4 {
            OsError::NotAligned
        } else if value == 5 {
            OsError::BadMutex
        } else if value == 6 {
            OsError::Timeout
        } else if value == 7 {
            OsError::ErrInISR
        } else if value == 8 {
            OsError::ErrPriviliged
        } else if value == 9 {
            OsError::NotStarted
        } else if value == 10 {
            OsError::NoEnt
        } else if value == 11 {
            OsError::Busy
        } else {
            OsError::Error
        }
    }

    /// The numeric code of this error.
    pub fn code(self) -> (c: u32)
        ensures
            c == self.spec_code(),
            1 <= c <= 12,
    {
        match self {
            OsError::NoMem => 1,
            OsError::Invalid => 2,
            OsError::InvalidParameter => 3,
            OsError::NotAligned => 4,
            OsError::BadMutex => 5,
            OsError::Timeout => 6,
            OsError::ErrInISR => 7,
            OsError::ErrPriviliged => 8,
            OsError::NotStarted => 9,
            OsError::NoEnt => 10,
            OsError::Busy => 11,
            OsError::Error => 12,
        }
    }

    /// The code as the signed integer that engine callbacks return.
    pub fn status(self) -> (c: i32)
        ensures
            c == self.spec_code(),
    {
        let c: u32 = self.code();
        c as i32
    }

    /// Decoding the code of an error gives the error back.
    pub proof fn lemma_code_round_trip(e: OsError)
        ensures
            OsError::spec_from(e.spec_code()) == e,
    {
    }

    /// A code outside the known range decodes to the generic error.
    pub proof fn lemma_unknown_code_is_generic(value: u32)
        requires
            value == 0 || value > 12,
        ensures
            OsError::spec_from(value) == OsError::Error,
    {
    }
}

impl From<u32> for OsError {
    fn from(value: u32) -> (e: OsError) {
        match value {
            1 => OsError::NoMem,
            2 => OsError::Invalid,
            3 => OsError::InvalidParameter,
            4 => OsError::NotAligned,
            5 => OsError::BadMutex,
            6 => OsError::Timeout,
            7 => OsError::ErrInISR,
            8 => OsError::ErrPriviliged,
            9 => OsError::NotStarted,
            10 => OsError::NoEnt,
            11 => OsError::Busy,
            _ => OsError::Error,
        }
    }
}

impl vstd::std_specs::convert::FromSpecImpl<u32> for OsError {
    open spec fn obeys_from_spec() -> bool {
        true
    }

    open spec fn from_spec(value: u32) -> OsError {
        OsError::spec_from(value)
    }
}

} // verus!
