//! Plain value types shared by the whole library: accounts, 32-byte tokens,
//! session states and the error taxonomy.

use vstd::prelude::*;

verus! {

/// An account identifier: a 160-bit address held as its high 32 bits and
/// low 128 bits.
#[derive(Clone, Copy, Debug, PartialEq, Eq, Structural)]
pub struct Account {
    pub high: u32,
    pub low: u128,
}

impl Account {
    /// The zero account, which stands for "nobody".
    pub fn zero() -> (r: Account)
        ensures
            r == Account::zero_spec(),
    {
        Account { high: 0, low: 0 }
    }

    pub open spec fn zero_spec() -> Account {
        Account { high: 0, low: 0 }
    }

    pub fn is_zero(&self) -> (r: bool)
        ensures
            r == (*self == Account::zero_spec()),
    {
        self.high == 0 && self.low == 0
    }
}

/// An opaque 256-bit token (room codes, display names, hashes), held as two
/// 128-bit halves.
#[derive(Clone, Copy, Debug, PartialEq, Eq, Structural)]
pub struct Bytes32 {
    pub high: u128,
    pub low: u128,
}

/// The lifecycle state of a session. Transitions only go forward.
#[derive(Clone, Copy, Debug, PartialEq, Eq, Structural)]
pub enum SessionStatus {
    Created,
    Active,
    Completed,
}

/// Why an operation was rejected. Every rejection leaves the state as it was.
#[derive(Clone, Copy, Debug, PartialEq, Eq, Structural)]
pub enum TriviaChainError {
    Unauthorized,
    SessionNotFound,
    SessionAlreadyActive,
    SessionNotActive,
    SessionFull,
    PlayerNotInSession,
    PlayerAlreadyJoined,
    InvalidRoomCode,
    InvalidQuestionIndex,
    QuestionNotActive,
    AlreadyAnswered,
    InvalidDuration,
}

} // verus!
