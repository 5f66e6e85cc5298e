//! The bidding engine's closed vocabulary: status codes, seats, vulnerability
//! states and partnership sides, each with the integer the engine uses for it.

use vstd::prelude::*;

verus! {

/// What a pointer to an engine instance points to. Nothing of it can be read:
/// an instance is known by its address alone.
pub struct EPBotHandle {
    _private: [u8; 0],
}

/// Status codes that the engine's calls return.
#[derive(Debug, Clone, Copy, PartialEq, Eq, Structural)]
pub enum EPBotError {
    Success,
    ErrNullHandle,
    ErrInvalidHand,
    ErrInvalidDealer,
    ErrInvalidVulnerability,
    ErrInvalidConventionFile,
    ErrBiddingFailed,
    ErrClrException,
    ErrOutOfMemory,
    ErrAuctionComplete,
}

impl EPBotError {
    /// The integer that the engine returns for this status.
    pub open spec fn spec_code(self) -> int {
        match self {
            EPBotError::Success => 0,
            EPBotError::ErrNullHandle => -1,
            EPBotError::ErrInvalidHand => -2,
            EPBotError::ErrInvalidDealer => -3,
            EPBotError::ErrInvalidVulnerability => -4,
            EPBotError::ErrInvalidConventionFile => -5,
            EPBotError::ErrBiddingFailed => -6,
            EPBotError::ErrClrException => -7,
            EPBotError::ErrOutOfMemory => -8,
            EPBotError::ErrAuctionComplete => -9,
        }
    }

    /// The status that a code stands for.
    pub open spec fn of_code(code: int) -> Option<EPBotError> {
        if code == 0 {
            Some(EPBotError::Success)
        } else if code == -1 {
            Some(EPBotError::ErrNullHandle)
        } else if code == -2 {
            Some(EPBotError::ErrInvalidHand)
        } else if code == -3 {
            Some(EPBotError::ErrInvalidDealer)
        } else if code == -4 {
            Some(EPBotError::ErrInvalidVulnerability)
        } else if code == -5 {
            Some(EPBotError::ErrInvalidConventionFile)
        } else if code == -6 {
            Some(EPBotError::ErrBiddingFailed)
        } else if code == -7 {
            Some(EPBotError::ErrClrException)
        } else if code == -8 {
            Some(EPBotError::ErrOutOfMemory)
        } else if code == -9 {
            Some(EPBotError::ErrAuctionComplete)
        } else {
            None
        }
    }

    /// What `description` returns.
    pub open spec fn spec_description(self) -> Seq<char> {
        match self {
            EPBotError::Success => "Success"@,
            EPBotError::ErrNullHandle => "Null instance handle"@,
            EPBotError::ErrInvalidHand => "Invalid hand/deal format"@,
            EPBotError::ErrInvalidDealer => "Invalid dealer position"@,
            EPBotError::ErrInvalidVulnerability => "Invalid vulnerability"@,
            EPBotError::ErrInvalidConventionFile => "Invalid convention file"@,
            EPBotError::ErrBiddingFailed => "Bidding operation failed"@,
            EPBotError::ErrClrException => "CLR/.NET exception"@,
            EPBotError::ErrOutOfMemory => "Buffer too small or out of memory"@,
            EPBotError::ErrAuctionComplete => "Auction is complete"@,
        }
    }

    /// Whether this status code represents success.
    pub fn is_ok(self) -> (r: bool)
        ensures
            r == (self == EPBotError::Success),
    {
        self == EPBotError::Success
    }

    /// A human-readable description of the status.
    pub fn description(self) -> (r: &'static str)
        ensures
            r@ == self.spec_description(),
    {
        match self {
            EPBotError::Success => "Success",
            EPBotError::ErrNullHandle => "Null instance handle",
            EPBotError::ErrInvalidHand => "Invalid hand/deal format",
            EPBotError::ErrInvalidDealer => "Invalid dealer position",
            EPBotError::ErrInvalidVulnerability => "Invalid vulnerability",
            EPBotError::ErrInvalidConventionFile => "Invalid convention file",
            EPBotError::ErrBiddingFailed => "Bidding operation failed",
            EPBotError::ErrClrException => "CLR/.NET exception",
            EPBotError::ErrOutOfMemory => "Buffer too small or out of memory",
            EPBotError::ErrAuctionComplete => "Auction is complete",
        }
    }

    /// The integer that the engine returns for this status.
    pub fn code(self) -> (r: i32)
        ensures
            r == self.spec_code(),
    {
        match self {
            EPBotError::Success => 0,
            EPBotError::ErrNullHandle => -1,
            EPBotError::ErrInvalidHand => -2,
            EPBotError::ErrInvalidDealer => -3,
            EPBotError::ErrInvalidVulnerability => -4,
            EPBotError::ErrInvalidConventionFile => -5,
            EPBotError::ErrBiddingFailed => -6,
            EPBotError::ErrClrException => -7,
            EPBotError::ErrOutOfMemory => -8,
            EPBotError::ErrAuctionComplete => -9,
        }
    }

    /// The status that the integer `code` stands for, if it is one of the
    /// engine's codes.
    pub fn from_code(code: i32) -> (r: Option<EPBotError>)
        ensures
            r == EPBotError::of_code(code as int),
    {
        if code == 0 {
            Some(EPBotError::Success)
        } else if code == -1 {
            Some(EPBotError::ErrNullHandle)
        } else if code == -2 {
            Some(EPBotError::ErrInvalidHand)
        } else if code == -3 {
            Some(EPBotError::ErrInvalidDealer)
        } else if code == -4 {
            Some(EPBotError::ErrInvalidVulnerability)
        } else if code == -5 {
            Some(EPBotError::ErrInvalidConventionFile)
        } else if code == -6 {
            Some(EPBotError::ErrBiddingFailed)
        } else if code == -7 {
            Some(EPBotError::ErrClrException)
        } else if code == -8 {
            Some(EPBotError::ErrOutOfMemory)
        } else if code == -9 {
            Some(EPBotError::ErrAuctionComplete)
        } else {
            None
        }
    }

    /// Every status is the one that its code stands for, and a code stands
    /// for a status only if it is that status's code.
    pub proof fn lemma_codes(e: EPBotError, code: int)
        ensures
            EPBotError::of_code(e.spec_code()) == Some(e),
            EPBotError::of_code(code) == Some(e) ==> e.spec_code() == code,
    {
    }
}

/// Dealer positions, numbered clockwise from North.
#[derive(Debug, Clone, Copy, PartialEq, Eq, Structural)]
pub enum EPBotDealer {
    North,
    East,
    South,
    West,
}

impl EPBotDealer {
    /// The integer that the engine takes for this seat.
    pub open spec fn spec_code(self) -> int {
        match self {
            EPBotDealer::North => 0,
            EPBotDealer::East => 1,
            EPBotDealer::South => 2,
            EPBotDealer::West => 3,
        }
    }

    /// The integer that the engine takes for this seat.
    pub fn code(self) -> (r: i32)
        ensures
            r == self.spec_code(),
    {
        match self {
            EPBotDealer::North => 0,
            EPBotDealer::East => 1,
            EPBotDealer::South => 2,
            EPBotDealer::West => 3,
        }
    }
}

/// Vulnerability states as the engine numbers them.
#[derive(Debug, Clone, Copy, PartialEq, Eq, Structural)]
pub enum EPBotVulnerability {
    Neither,
    NS,
    EW,
    Both,
}

impl EPBotVulnerability {
    /// The integer that the engine takes for this state.
    pub open spec fn spec_code(self) -> int {
        match self {
            EPBotVulnerability::Neither => 0,
            EPBotVulnerability::NS => 1,
            EPBotVulnerability::EW => 2,
            EPBotVulnerability::Both => 3,
        }
    }

    /// The integer that the engine takes for this state.
    pub fn code(self) -> (r: i32)
        ensures
            r == self.spec_code(),
    {
        match self {
            EPBotVulnerability::Neither => 0,
            EPBotVulnerability::NS => 1,
            EPBotVulnerability::EW => 2,
            EPBotVulnerability::Both => 3,
        }
    }
}

/// Partnership sides as the engine numbers them.
#[derive(Debug, Clone, Copy, PartialEq, Eq, Structural)]
pub enum EPBotSide {
    NS,
    EW,
}

impl EPBotSide {
    /// The integer that the engine takes for this side.
    pub open spec fn spec_code(self) -> int {
        match self {
            EPBotSide::NS => 0,
            EPBotSide::EW => 1,
        }
    }

    /// The integer that the engine takes for this side.
    pub fn code(self) -> (r: i32)
        ensures
            r == self.spec_code(),
    {
        match self {
            EPBotSide::NS => 0,
            EPBotSide::EW => 1,
        }
    }
}

} // verus!
