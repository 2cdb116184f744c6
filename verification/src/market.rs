//! The state of the market for a craft: how popular it is and how much of it
//! is on offer. Each state stands for a multiplier of the craft's value.
//!
//! Multipliers are counted in tenths, so that pricing stays within the
//! integers: a popularity of `12` multiplies by 1.2.

use std::str::FromStr;
use vstd::prelude::*;
use vstd::string::StringExecFns;

verus! {

/// The text that `str::to_lowercase` makes of a text.
pub uninterp spec fn lowercase_of(text: Seq<char>) -> Seq<char>;

/// `str::to_lowercase`: assumed to be a function of the text alone; nothing
/// is assumed of what it returns.
#[verifier::external_body]
fn to_lowercase(text: &str) -> (lowered: String)
    ensures
        lowered@ == lowercase_of(text@),
{
    text.to_lowercase()
}

/// How much a craft is in demand.
#[derive(Debug, Clone, Copy, Hash, PartialEq, Eq, Structural)]
pub enum Popularity {
    Low,
    Average,
    High,
    VeryHigh,
}

impl Popularity {
    /// The multiplier in tenths: 0.8, 1.0, 1.2 and 1.4.
    pub open spec fn spec_multiplier(&self) -> usize {
        match self {
            Popularity::Low => 8,
            Popularity::Average => 10,
            Popularity::High => 12,
            Popularity::VeryHigh => 14,
        }
    }

    /// The multiplier in tenths.
    #[verifier::when_used_as_spec(spec_multiplier)]
    pub fn multiplier(&self) -> (tenths: usize)
        ensures
            tenths == self.spec_multiplier(),
    {
        match self {
            Popularity::Low => 8,
            Popularity::Average => 10,
            Popularity::High => 12,
            Popularity::VeryHigh => 14,
        }
    }
}

/// A text that names no popularity.
#[derive(Debug)]
pub struct PopularityDeserializeError(String);

impl View for PopularityDeserializeError {
    type V = Seq<char>;

    /// The text that was turned down.
    closed spec fn view(&self) -> Seq<char> {
        self.0@
    }
}

impl PopularityDeserializeError {
    /// The text that was turned down.
    pub fn rejected(&self) -> (text: &str)
        ensures
            text@ == self@,
    {
        self.0.as_str()
    }

    /// What to tell the operator.
    pub fn message(&self) -> (message: String)
        ensures
            message@ == "Invalid value for Popularity: "@ + self@,
    {
        let mut message = "Invalid value for Popularity: ".to_owned();
        message.append(self.0.as_str());
        message
    }
}

impl Popularity {
    /// The popularity that a letter in lower case stands for: `l`, `a`,
    /// `h` or `v`.
    pub open spec fn spec_from_lowered(lowered: Seq<char>) -> Option<Popularity> {
        if lowered.len() != 1 {
            None
        } else if lowered[0] == 'l' {
            Some(Popularity::Low)
        } else if lowered[0] == 'a' {
            Some(Popularity::Average)
        } else if lowered[0] == 'h' {
            Some(Popularity::High)
        } else if lowered[0] == 'v' {
            Some(Popularity::VeryHigh)
        } else {
            None
        }
    }

    /// Reads a popularity from a text that is in lower case already. When
    /// the text names none, the error holds `typed`.
    pub fn from_lowered(lowered: &str, typed: &str) -> (parsed: Result<Popularity, PopularityDeserializeError>)
        ensures
            match Popularity::spec_from_lowered(lowered@) {
                Some(popularity) => parsed == Ok::<Popularity, PopularityDeserializeError>(popularity),
                None => parsed is Err && parsed->Err_0@ == typed@,
            },
    {
        if lowered.unicode_len() == 1 {
            let letter = lowered.get_char(0);
            if letter == 'l' {
                return Ok(Popularity::Low);
            } else if letter == 'a' {
                return Ok(Popularity::Average);
            } else if letter == 'h' {
                return Ok(Popularity::High);
            } else if letter == 'v' {
                return Ok(Popularity::VeryHigh);
            }
        }
        Err(PopularityDeserializeError(typed.to_owned()))
    }

    /// Reads a popularity from its letter, in either case.
    pub fn parse(text: &str) -> (parsed: Result<Popularity, PopularityDeserializeError>)
        ensures
            match Popularity::spec_from_lowered(lowercase_of(text@)) {
                Some(popularity) => parsed == Ok::<Popularity, PopularityDeserializeError>(popularity),
                None => parsed is Err && parsed->Err_0@ == text@,
            },
    {
        let lowered = to_lowercase(text);
        Popularity::from_lowered(lowered.as_str(), text)
    }
}

impl FromStr for Popularity {
    type Err = PopularityDeserializeError;

    /// Reads a popularity from its letter, in either case, as `parse` does.
    fn from_str(s: &str) -> (parsed: Result<Popularity, PopularityDeserializeError>)
        ensures
            match Popularity::spec_from_lowered(lowercase_of(s@)) {
                Some(popularity) => parsed == Ok::<Popularity, PopularityDeserializeError>(popularity),
                None => parsed is Err && parsed->Err_0@ == s@,
            },
    {
        Popularity::parse(s)
    }
}

/// How much of a craft is on offer.
#[derive(Debug, Clone, Copy, Hash, PartialEq, Eq, Structural)]
pub enum Supply {
    Nonexistent,
    Insufficient,
    Sufficient,
    Surplus,
    Overflowing,
}

impl Supply {
    /// The multiplier in tenths: 1.6, 1.3, 1.0, 0.8 and 0.6.
    pub open spec fn spec_multiplier(&self) -> usize {
        match self {
            Supply::Nonexistent => 16,
            Supply::Insufficient => 13,
            Supply::Sufficient => 10,
            Supply::Surplus => 8,
            Supply::Overflowing => 6,
        }
    }

    /// The multiplier in tenths.
    #[verifier::when_used_as_spec(spec_multiplier)]
    pub fn multiplier(&self) -> (tenths: usize)
        ensures
            tenths == self.spec_multiplier(),
    {
        match self {
            Supply::Nonexistent => 16,
            Supply::Insufficient => 13,
            Supply::Sufficient => 10,
            Supply::Surplus => 8,
            Supply::Overflowing => 6,
        }
    }
}

/// A text that names no supply.
#[derive(Debug)]
pub struct SupplyDeserializeError(String);

impl View for SupplyDeserializeError {
    type V = Seq<char>;

    /// The text that was turned down.
    closed spec fn view(&self) -> Seq<char> {
        self.0@
    }
}

impl SupplyDeserializeError {
    /// The text that was turned down.
    pub fn rejected(&self) -> (text: &str)
        ensures
            text@ == self@,
    {
        self.0.as_str()
    }

    /// What to tell the operator.
    pub fn message(&self) -> (message: String)
        ensures
            message@ == "Invalid value for Supply: "@ + self@,
    {
        let mut message = "Invalid value for Supply: ".to_owned();
        message.append(self.0.as_str());
        message
    }
}

impl Supply {
    /// The supply that a letter in lower case stands for: `n`, `i`, `s`,
    /// `u` or `o`.
    pub open spec fn spec_from_lowered(lowered: Seq<char>) -> Option<Supply> {
        if lowered.len() != 1 {
            None
        } else if lowered[0] == 'n' {
            Some(Supply::Nonexistent)
        } else if lowered[0] == 'i' {
            Some(Supply::Insufficient)
        } else if lowered[0] == 's' {
            Some(Supply::Sufficient)
        } else if lowered[0] == 'u' {
            Some(Supply::Surplus)
        } else if lowered[0] == 'o' {
            Some(Supply::Overflowing)
        } else {
            None
        }
    }

    /// Reads a supply from a text that is in lower case already. When the
    /// text names none, the error holds `typed`.
    pub fn from_lowered(lowered: &str, typed: &str) -> (parsed: Result<Supply, SupplyDeserializeError>)
        ensures
            match Supply::spec_from_lowered(lowered@) {
                Some(supply) => parsed == Ok::<Supply, SupplyDeserializeError>(supply),
                None => parsed is Err && parsed->Err_0@ == typed@,
            },
    {
        if lowered.unicode_len() == 1 {
            let letter = lowered.get_char(0);
            if letter == 'n' {
                return Ok(Supply::Nonexistent);
            } else if letter == 'i' {
                return Ok(Supply::Insufficient);
            } else if letter == 's' {
                return Ok(Supply::Sufficient);
            } else if letter == 'u' {
                return Ok(Supply::Surplus);
            } else if letter == 'o' {
                return Ok(Supply::Overflowing);
            }
        }
        Err(SupplyDeserializeError(typed.to_owned()))
    }

    /// Reads a supply from its letter, in either case.
    pub fn parse(text: &str) -> (parsed: Result<Supply, SupplyDeserializeError>)
        ensures
            match Supply::spec_from_lowered(lowercase_of(text@)) {
                Some(supply) => parsed == Ok::<Supply, SupplyDeserializeError>(supply),
                None => parsed is Err && parsed->Err_0@ == text@,
            },
    {
        let lowered = to_lowercase(text);
        Supply::from_lowered(lowered.as_str(), text)
    }
}

impl FromStr for Supply {
    type Err = SupplyDeserializeError;

    /// Reads a supply from its letter, in either case, as `parse` does.
    fn from_str(s: &str) -> (parsed: Result<Supply, SupplyDeserializeError>)
        ensures
            match Supply::spec_from_lowered(lowercase_of(s@)) {
                Some(supply) => parsed == Ok::<Supply, SupplyDeserializeError>(supply),
                None => parsed is Err && parsed->Err_0@ == s@,
            },
    {
        Supply::parse(s)
    }
}

/// The market state of one craft.
#[derive(Debug, Clone, Copy, Hash, PartialEq, Eq, Structural)]
pub struct PopSupply {
    pub popularity: Popularity,
    pub supply: Supply,
}

} // verus!
