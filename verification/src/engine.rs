//! The vocabulary of a bidding request: seats, vulnerability, sides, the
//! request itself and the engine's result for it.

use crate::bindings::{EPBotDealer, EPBotSide, EPBotVulnerability};
use crate::text::{
    chars_of, is_chars1, is_chars2, is_chars3, is_chars4, opt_text, opt_texts, string_of,
    strip_bounds, trim, CharClass,
};
use vstd::prelude::*;

verus! {

/// One of the four seats at the table.
#[derive(Debug, Clone, Copy, PartialEq, Eq, Structural)]
pub enum Position {
    North,
    East,
    South,
    West,
}

impl Position {
    /// The seat's letter.
    pub open spec fn spec_letter(self) -> Seq<char> {
        match self {
            Position::North => "N"@,
            Position::East => "E"@,
            Position::South => "S"@,
            Position::West => "W"@,
        }
    }

    /// The seat that a letter names.
    pub open spec fn of_letter(s: Seq<char>) -> Option<Position> {
        if is_chars1(s, 'N') {
            Some(Position::North)
        } else if is_chars1(s, 'E') {
            Some(Position::East)
        } else if is_chars1(s, 'S') {
            Some(Position::South)
        } else if is_chars1(s, 'W') {
            Some(Position::West)
        } else {
            None
        }
    }

    /// The seat as the engine numbers it.
    pub open spec fn spec_to_ffi(self) -> EPBotDealer {
        match self {
            Position::North => EPBotDealer::North,
            Position::East => EPBotDealer::East,
            Position::South => EPBotDealer::South,
            Position::West => EPBotDealer::West,
        }
    }

    /// The seat's letter: `N`, `E`, `S` or `W`.
    pub fn letter(self) -> (r: &'static str)
        ensures
            r@ == self.spec_letter(),
    {
        match self {
            Position::North => "N",
            Position::East => "E",
            Position::South => "S",
            Position::West => "W",
        }
    }

    /// The seat that `s` names: exactly one of the four capital letters.
    pub fn from_letter(s: &str) -> (r: Option<Position>)
        ensures
            r == Position::of_letter(s@),
    {
        let v = chars_of(s);
        if v.len() != 1 {
            None
        } else if v[0] == 'N' {
            Some(Position::North)
        } else if v[0] == 'E' {
            Some(Position::East)
        } else if v[0] == 'S' {
            Some(Position::South)
        } else if v[0] == 'W' {
            Some(Position::West)
        } else {
            None
        }
    }

    /// The seat as the engine numbers it.
    pub fn to_ffi(self) -> (r: EPBotDealer)
        ensures
            r == self.spec_to_ffi(),
    {
        match self {
            Position::North => EPBotDealer::North,
            Position::East => EPBotDealer::East,
            Position::South => EPBotDealer::South,
            Position::West => EPBotDealer::West,
        }
    }
}

/// The seat's letter as an owned string.
pub fn position_to_string(pos: Position) -> (r: String)
    ensures
        r@ == pos.spec_letter(),
{
    String::from_str(pos.letter())
}

/// Which partnerships are vulnerable.
#[derive(Debug, Clone, Copy, PartialEq, Eq, Structural)]
pub enum Vulnerability {
    Neither,
    NorthSouth,
    EastWest,
    Both,
}

/// `str::to_uppercase` of a text: its upper-case equivalent as Unicode
/// defines it.
pub uninterp spec fn uppercase_of(s: Seq<char>) -> Seq<char>;

/// `str::to_uppercase`: the result is the upper-case equivalent of `s`, a
/// function of the text alone.
#[verifier::external_body]
fn to_uppercase(s: &str) -> (r: String)
    ensures
        r@ == uppercase_of(s@),
{
    s.to_uppercase()
}

impl Vulnerability {
    /// The state that an upper-case token names.
    pub open spec fn of_token(t: Seq<char>) -> Option<Vulnerability> {
        if is_chars4(t, 'N', 'O', 'N', 'E') || is_chars1(t, '-') || t.len() == 0 {
            Some(Vulnerability::Neither)
        } else if is_chars2(t, 'N', 'S') || is_chars3(t, 'N', '-', 'S') {
            Some(Vulnerability::NorthSouth)
        } else if is_chars2(t, 'E', 'W') || is_chars3(t, 'E', '-', 'W') {
            Some(Vulnerability::EastWest)
        } else if is_chars4(t, 'B', 'O', 'T', 'H') || is_chars3(t, 'A', 'L', 'L') {
            Some(Vulnerability::Both)
        } else {
            None
        }
    }

    /// The canonical short code of the state.
    pub open spec fn spec_to_pbn(self) -> Seq<char> {
        match self {
            Vulnerability::Neither => "None"@,
            Vulnerability::NorthSouth => "NS"@,
            Vulnerability::EastWest => "EW"@,
            Vulnerability::Both => "Both"@,
        }
    }

    /// The engine's number for the state.
    pub open spec fn spec_to_ffi(self) -> int {
        match self {
            Vulnerability::Neither => 0,
            Vulnerability::NorthSouth => 1,
            Vulnerability::EastWest => 2,
            Vulnerability::Both => 3,
        }
    }

    /// The state as the engine names it.
    pub open spec fn spec_to_engine(self) -> EPBotVulnerability {
        match self {
            Vulnerability::Neither => EPBotVulnerability::Neither,
            Vulnerability::NorthSouth => EPBotVulnerability::NS,
            Vulnerability::EastWest => EPBotVulnerability::EW,
            Vulnerability::Both => EPBotVulnerability::Both,
        }
    }

    /// The state that the token `t` names, where `t` is already trimmed and in
    /// upper case: `NONE`, `-` or nothing for neither side, `NS` or `N-S`,
    /// `EW` or `E-W`, `BOTH` or `ALL`.
    pub fn from_token(t: &str) -> (r: Option<Vulnerability>)
        ensures
            r == Vulnerability::of_token(t@),
    {
        let v = chars_of(t);
        let n = v.len();
        if n == 0 || (n == 1 && v[0] == '-') || (n == 4 && v[0] == 'N' && v[1] == 'O' && v[2] == 'N'
            && v[3] == 'E') {
            Some(Vulnerability::Neither)
        } else if (n == 2 && v[0] == 'N' && v[1] == 'S') || (n == 3 && v[0] == 'N' && v[1] == '-'
            && v[2] == 'S') {
            Some(Vulnerability::NorthSouth)
        } else if (n == 2 && v[0] == 'E' && v[1] == 'W') || (n == 3 && v[0] == 'E' && v[1] == '-'
            && v[2] == 'W') {
            Some(Vulnerability::EastWest)
        } else if (n == 4 && v[0] == 'B' && v[1] == 'O' && v[2] == 'T' && v[3] == 'H') || (n == 3
            && v[0] == 'A' && v[1] == 'L' && v[2] == 'L') {
            Some(Vulnerability::Both)
        } else {
            None
        }
    }

    /// Reads a vulnerability from the value of a PBN tag: the value is trimmed
    /// and put in upper case, and the token that results is looked up.
    pub fn from_pbn(s: &str) -> (r: Option<Vulnerability>)
        ensures
            r == Vulnerability::of_token(uppercase_of(trim(s@))),
    {
        let v = chars_of(s);
        proof {
            assert(v@.subrange(0, v@.len() as int) =~= v@);
        }
        let (a, b) = strip_bounds(&v, 0, v.len(), CharClass::Space);
        let t = string_of(&v, a, b);
        let u = to_uppercase(t.as_str());
        Vulnerability::from_token(u.as_str())
    }

    /// The canonical short code: `None`, `NS`, `EW` or `Both`.
    pub fn to_pbn(self) -> (r: &'static str)
        ensures
            r@ == self.spec_to_pbn(),
    {
        match self {
            Vulnerability::Neither => "None",
            Vulnerability::NorthSouth => "NS",
            Vulnerability::EastWest => "EW",
            Vulnerability::Both => "Both",
        }
    }

    /// The engine's number for the state: 0 for neither side, 1 for
    /// North-South, 2 for East-West, 3 for both.
    pub fn to_ffi(self) -> (r: i32)
        ensures
            r == self.spec_to_ffi(),
            r == self.spec_to_engine().spec_code(),
    {
        match self {
            Vulnerability::Neither => 0,
            Vulnerability::NorthSouth => 1,
            Vulnerability::EastWest => 2,
            Vulnerability::Both => 3,
        }
    }

    /// The state as the engine names it.
    pub fn to_engine(self) -> (r: EPBotVulnerability)
        ensures
            r == self.spec_to_engine(),
    {
        match self {
            Vulnerability::Neither => EPBotVulnerability::Neither,
            Vulnerability::NorthSouth => EPBotVulnerability::NS,
            Vulnerability::EastWest => EPBotVulnerability::EW,
            Vulnerability::Both => EPBotVulnerability::Both,
        }
    }
}

/// A partnership, for the choice of its conventions.
#[derive(Debug, Clone, Copy, PartialEq, Eq, Structural)]
pub enum Side {
    NorthSouth,
    EastWest,
}

impl Side {
    /// The engine's number for the side.
    pub open spec fn spec_to_ffi(self) -> int {
        match self {
            Side::NorthSouth => 0,
            Side::EastWest => 1,
        }
    }

    /// The side as the engine names it.
    pub open spec fn spec_to_engine(self) -> EPBotSide {
        match self {
            Side::NorthSouth => EPBotSide::NS,
            Side::EastWest => EPBotSide::EW,
        }
    }

    /// The engine's number for the side: 0 for North-South, 1 for East-West.
    pub fn to_ffi(self) -> (r: i32)
        ensures
            r == self.spec_to_ffi(),
            r == self.spec_to_engine().spec_code(),
    {
        match self {
            Side::NorthSouth => 0,
            Side::EastWest => 1,
        }
    }

    /// The side as the engine names it.
    pub fn to_engine(self) -> (r: EPBotSide)
        ensures
            r == self.spec_to_engine(),
    {
        match self {
            Side::NorthSouth => EPBotSide::NS,
            Side::EastWest => EPBotSide::EW,
        }
    }
}

/// A deal to bid: its cards, the dealer and the vulnerability.
#[derive(Debug, Clone, PartialEq, Eq)]
pub struct DealSpec {
    /// The cards, seat by seat, in the compact notation of a `Deal` tag.
    pub pbn: String,
    pub dealer: Position,
    pub vulnerability: Vulnerability,
}

/// What a `DealSpec` holds.
pub struct DealSpecView {
    pub pbn: Seq<char>,
    pub dealer: Position,
    pub vulnerability: Vulnerability,
}

impl View for DealSpec {
    type V = DealSpecView;

    open spec fn view(&self) -> DealSpecView {
        DealSpecView { pbn: self.pbn@, dealer: self.dealer, vulnerability: self.vulnerability }
    }
}

/// The engine's answer for one deal.
#[derive(Debug, Clone, PartialEq, Eq)]
pub struct DealResult {
    /// The deal that was bid.
    pub deal: Option<String>,
    /// The bids in order, where the engine produced an auction.
    pub auction: Option<Vec<String>>,
    pub success: bool,
    /// The diagnostic, where it did not.
    pub error: Option<String>,
}

/// What a `DealResult` holds.
pub struct DealResultView {
    pub deal: Option<Seq<char>>,
    pub auction: Option<Seq<Seq<char>>>,
    pub success: bool,
    pub error: Option<Seq<char>>,
}

impl View for DealResult {
    type V = DealResultView;

    open spec fn view(&self) -> DealResultView {
        DealResultView {
            deal: opt_text(self.deal),
            auction: opt_texts(self.auction),
            success: self.success,
            error: opt_text(self.error),
        }
    }
}

/// What a list of results holds.
pub open spec fn results_view(v: Seq<DealResult>) -> Seq<DealResultView> {
    Seq::new(v.len(), |i: int| v[i]@)
}

/// What a list of requests holds.
pub open spec fn specs_view(v: Seq<DealSpec>) -> Seq<DealSpecView> {
    Seq::new(v.len(), |i: int| v[i]@)
}


/// The engine's configuration: the convention file of each partnership.
#[derive(Debug, Clone, PartialEq, Eq)]
pub struct EPBot {
    pub ns_conventions: Option<String>,
    pub ew_conventions: Option<String>,
}

impl EPBot {
    /// An engine for which no conventions are chosen yet.
    pub fn new() -> (r: EPBot)
        ensures
            r.ns_conventions is None,
            r.ew_conventions is None,
    {
        EPBot { ns_conventions: None, ew_conventions: None }
    }

    /// Chooses the convention file of one partnership. `path` is the file's
    /// path as text, or `None` where the path is not valid text: then the
    /// call fails with `InvalidPath` and changes nothing. The latest choice
    /// for a side replaces an earlier one; the other side is untouched.
    pub fn load_conventions(&mut self, path: Option<&str>, side: Side) -> (r: Result<
        (),
        crate::error::BbaError,
    >)
        ensures
            path is None ==> r == Err::<(), crate::error::BbaError>(
                crate::error::BbaError::InvalidPath,
            ) && *final(self) == *old(self),
            path is Some ==> r is Ok,
            path is Some && side == Side::NorthSouth ==> opt_text(final(self).ns_conventions)
                == Some(path->0@) && final(self).ew_conventions == old(self).ew_conventions,
            path is Some && side == Side::EastWest ==> opt_text(final(self).ew_conventions)
                == Some(path->0@) && final(self).ns_conventions == old(self).ns_conventions,
    {
        match path {
            None => Err(crate::error::BbaError::InvalidPath),
            Some(p) => {
                let owned = String::from_str(p);
                match side {
                    Side::NorthSouth => {
                        self.ns_conventions = Some(owned);
                    },
                    Side::EastWest => {
                        self.ew_conventions = Some(owned);
                    },
                }
                Ok(())
            },
        }
    }
}

} // verus!
