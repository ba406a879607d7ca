//! The closed taxonomy of codec outcomes and its raw integer encoding.

use vstd::prelude::*;

verus! {

/// Outcome of one codec operation.
#[derive(Debug, Copy, Clone, PartialEq, Eq, Structural)]
pub enum ReturnCode {
    /// The step succeeded; more work may remain.
    Okay,
    /// The logical end of the stream was reached.
    StreamEnd,
    /// A preset dictionary is required.
    NeedDict,
    /// The backend surfaced an error of the host.
    ErrNo,
    /// The configuration or the state is invalid for the operation.
    StreamError,
    /// The compressed data is malformed or truncated.
    DataError,
    /// The backend could not get working memory.
    MemError,
    /// No progress is possible within the current buffer bounds.
    BufError,
    /// The backend and its header disagree on the version.
    VersionError,
}

impl ReturnCode {
    /// The raw status integer that stands for `self`.
    pub open spec fn spec_raw(self) -> int {
        match self {
            ReturnCode::Okay => 0,
            ReturnCode::StreamEnd => 1,
            ReturnCode::NeedDict => 2,
            ReturnCode::ErrNo => -1,
            ReturnCode::StreamError => -2,
            ReturnCode::DataError => -3,
            ReturnCode::MemError => -4,
            ReturnCode::BufError => -5,
            ReturnCode::VersionError => -6,
        }
    }

    /// Whether a raw status integer lies in the taxonomy.
    pub open spec fn is_raw(value: int) -> bool {
        -6 <= value <= 2
    }

    /// The member of the taxonomy that a raw status integer stands for.
    pub open spec fn spec_from(value: int) -> ReturnCode
        recommends
            Self::is_raw(value),
    {
        if value == 0 {
            ReturnCode::Okay
        } else if value == 1 {
            ReturnCode::StreamEnd
        } else if value == 2 {
            ReturnCode::NeedDict
        } else if value == -1 {
            ReturnCode::ErrNo
        } else if value == -2 {
            ReturnCode::StreamError
        } else if value == -3 {
            ReturnCode::DataError
        } else if value == -4 {
            ReturnCode::MemError
        } else if value == -5 {
            ReturnCode::BufError
        } else {
            ReturnCode::VersionError
        }
    }

    /// Maps a raw status integer of the taxonomy onto its member.
    ///
    /// An integer outside the taxonomy is a fault of the backend, never an
    /// outcome to report: callers that cannot rule it out use
    /// [`ReturnCode::checked_from`].
    pub fn from(value: i32) -> (code: ReturnCode)
        requires
            Self::is_raw(value as int),
        ensures
            code == Self::spec_from(value as int),
            code.spec_raw() == value,
    {
        match value {
            0 => ReturnCode::Okay,
            1 => ReturnCode::StreamEnd,
            2 => ReturnCode::NeedDict,
            -1 => ReturnCode::ErrNo,
            -2 => ReturnCode::StreamError,
            -3 => ReturnCode::DataError,
            -4 => ReturnCode::MemError,
            -5 => ReturnCode::BufError,
            _ => ReturnCode::VersionError,
        }
    }

    /// Maps a raw status integer onto the taxonomy, or gives `None` for an
    /// integer outside it.
    pub fn checked_from(value: i32) -> (code: Option<ReturnCode>)
        ensures
            code is Some <==> Self::is_raw(value as int),
            code matches Some(c) ==> c == Self::spec_from(value as int) && c.spec_raw() == value,
    {
        if -6 <= value && value <= 2 {
            Some(Self::from(value))
        } else {
            None
        }
    }

    /// The raw status integer of `self`.
    pub fn raw(self) -> (value: i32)
        ensures
            value == self.spec_raw(),
            Self::is_raw(value as int),
            Self::spec_from(value as int) == self,
    {
        match self {
            ReturnCode::Okay => 0,
            ReturnCode::StreamEnd => 1,
            ReturnCode::NeedDict => 2,
            ReturnCode::ErrNo => -1,
            ReturnCode::StreamError => -2,
            ReturnCode::DataError => -3,
            ReturnCode::MemError => -4,
            ReturnCode::BufError => -5,
            ReturnCode::VersionError => -6,
        }
    }
}

} // verus!
