use vstd::prelude::*;

verus! {

/// Why a lookup failed.
#[derive(Clone, Copy, Debug, PartialEq, Eq, Structural)]
pub enum LookupError {
    /// The geocoding service had no match for the city name.
    NotFound,
    /// The weather service answered, but without a current-weather section.
    NoData,
    /// A request failed or an answer was malformed.
    Transport,
}

impl LookupError {
    /// The diagnostic line for each failure kind.
    pub open spec fn text(self) -> Seq<char> {
        match self {
            LookupError::NotFound => "Invalid City Name!"@,
            LookupError::NoData => "No data available for this location"@,
            LookupError::Transport => "Transport error"@,
        }
    }

    /// The diagnostic line for this failure, for the process output stream.
    pub fn message(&self) -> (r: &'static str)
        ensures
            r@ == self.text(),
    {
        match self {
            LookupError::NotFound => "Invalid City Name!",
            LookupError::NoData => "No data available for this location",
            LookupError::Transport => "Transport error",
        }
    }
}

} // verus!
