//! Textual card notation, used by tests and fixtures: a rank ("2".."10",
//! "J", "Q", "K", "A") followed by a suit letter ("H", "C", "S", "D"),
//! e.g. "5D" or "10S".

use vstd::prelude::*;
use vstd::string::StrSliceExecFns;
use crate::card::Card;
use crate::card::Rank;
use crate::card::Suite;

verus! {

/// The rank part of a notation could not be recognised.
#[derive(PartialEq, Debug)]
pub struct ParseRankError;

/// The suit letter of a notation could not be recognised.
#[derive(PartialEq, Debug)]
pub struct ParseSuiteError;

/// Why a card notation was rejected: its rank part or its suit letter.
#[derive(PartialEq, Debug)]
pub enum ParseCardError {
    Suite(ParseSuiteError),
    Rank(ParseRankError),
}

/// The rank named by a character sequence, if any.
pub open spec fn rank_of_chars(s: Seq<char>) -> Option<Rank> {
    if s.len() == 1 {
        if s[0] == '2' {
            Some(Rank::Two)
        } else if s[0] == '3' {
            Some(Rank::Three)
        } else if s[0] == '4' {
            Some(Rank::Four)
        } else if s[0] == '5' {
            Some(Rank::Five)
        } else if s[0] == '6' {
            Some(Rank::Six)
        } else if s[0] == '7' {
            Some(Rank::Seven)
        } else if s[0] == '8' {
            Some(Rank::Eight)
        } else if s[0] == '9' {
            Some(Rank::Nine)
        } else if s[0] == 'J' {
            Some(Rank::Jack)
        } else if s[0] == 'Q' {
            Some(Rank::Queen)
        } else if s[0] == 'K' {
            Some(Rank::King)
        } else if s[0] == 'A' {
            Some(Rank::Ace)
        } else {
            None
        }
    } else if s.len() == 2 && s[0] == '1' && s[1] == '0' {
        Some(Rank::Ten)
    } else {
        None
    }
}

/// The suit named by a character sequence, if any.
pub open spec fn suite_of_chars(s: Seq<char>) -> Option<Suite> {
    if s.len() == 1 {
        if s[0] == 'D' {
            Some(Suite::Diamonds)
        } else if s[0] == 'C' {
            Some(Suite::Clubs)
        } else if s[0] == 'S' {
            Some(Suite::Spades)
        } else if s[0] == 'H' {
            Some(Suite::Hearts)
        } else {
            None
        }
    } else {
        None
    }
}

/// The card named by a notation: all characters but the last name the rank,
/// the last character names the suit; an unrecognised rank part wins over an
/// unrecognised suit letter.
pub open spec fn card_of_chars(s: Seq<char>) -> Result<Card, ParseCardError>
    recommends
        s.len() >= 1,
{
    match rank_of_chars(s.subrange(0, s.len() - 1)) {
        None => Err(ParseCardError::Rank(ParseRankError)),
        Some(rank) => match suite_of_chars(s.subrange(s.len() - 1, s.len() as int)) {
            None => Err(ParseCardError::Suite(ParseSuiteError)),
            Some(suite) => Ok(Card { suite, rank }),
        },
    }
}

impl Rank {
    /// Parses a rank: "2".."10", "J", "Q", "K" or "A".
    pub fn from_str(s: &str) -> (r: Result<Rank, ParseRankError>)
        ensures
            rank_of_chars(s@) matches Some(rank) ==> r == Ok::<Rank, ParseRankError>(rank),
            rank_of_chars(s@) is None ==> r is Err,
    {
        let n: usize = s.unicode_len();
        if n == 1 {
            let c = s.get_char(0);
            if c == '2' {
                Ok(Rank::Two)
            } else if c == '3' {
                Ok(Rank::Three)
            } else if c == '4' {
                Ok(Rank::Four)
            } else if c == '5' {
                Ok(Rank::Five)
            } else if c == '6' {
                Ok(Rank::Six)
            } else if c == '7' {
                Ok(Rank::Seven)
            } else if c == '8' {
                Ok(Rank::Eight)
            } else if c == '9' {
                Ok(Rank::Nine)
            } else if c == 'J' {
                Ok(Rank::Jack)
            } else if c == 'Q' {
                Ok(Rank::Queen)
            } else if c == 'K' {
                Ok(Rank::King)
            } else if c == 'A' {
                Ok(Rank::Ace)
            } else {
                Err(ParseRankError)
            }
        } else if n == 2 {
            let c0 = s.get_char(0);
            let c1 = s.get_char(1);
            if c0 == '1' && c1 == '0' {
                Ok(Rank::Ten)
            } else {
                Err(ParseRankError)
            }
        } else {
            Err(ParseRankError)
        }
    }
}

impl Suite {
    /// Parses a suit letter: "D", "C", "S" or "H".
    pub fn from_str(s: &str) -> (r: Result<Suite, ParseSuiteError>)
        ensures
            suite_of_chars(s@) matches Some(suite) ==> r == Ok::<Suite, ParseSuiteError>(suite),
            suite_of_chars(s@) is None ==> r is Err,
    {
        let n: usize = s.unicode_len();
        if n == 1 {
            let c = s.get_char(0);
            if c == 'D' {
                Ok(Suite::Diamonds)
            } else if c == 'C' {
                Ok(Suite::Clubs)
            } else if c == 'S' {
                Ok(Suite::Spades)
            } else if c == 'H' {
                Ok(Suite::Hearts)
            } else {
                Err(ParseSuiteError)
            }
        } else {
            Err(ParseSuiteError)
        }
    }
}

impl Card {
    /// Parses a card notation such as "5D" or "10S". The notation must not
    /// be empty.
    pub fn from_str(s: &str) -> (r: Result<Card, ParseCardError>)
        requires
            s@.len() >= 1,
        ensures
            r == card_of_chars(s@),
    {
        let n: usize = s.unicode_len();
        let rank_part = s.substring_char(0, n - 1);
        let suite_part = s.substring_char(n - 1, n);
        match Rank::from_str(rank_part) {
            Err(e) => Err(ParseCardError::Rank(e)),
            Ok(rank) => match Suite::from_str(suite_part) {
                Err(e) => Err(ParseCardError::Suite(e)),
                Ok(suite) => Ok(Card { suite, rank }),
            },
        }
    }
}

} // verus!
