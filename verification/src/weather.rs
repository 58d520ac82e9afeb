use vstd::prelude::*;
use crate::errors::LookupError;

verus! {

/// One current-temperature reading, in tenths of a degree: the resolution
/// the weather service reports at.
#[derive(Clone, Copy, Debug, PartialEq, Eq, Structural)]
pub struct WeatherReading {
    pub temperature_deci: i64,
}

/// What one round against the weather endpoint produced. The caller performs
/// the request and hands the outcome back as one of these.
#[derive(Clone, Copy, Debug, PartialEq, Eq)]
pub enum WeatherEvent {
    /// The endpoint answered; a current-weather section, with its temperature
    /// in tenths of a degree, may or may not have been present.
    Answered { current_deci: Option<i64> },
    /// The request or the protocol failed; the endpoint's own words belong on
    /// the process output stream, not in the result.
    Failed,
}

/// What a weather event means: the reading where a current-weather section
/// was present, `NoData` where the answer had none, `Transport` for a failed
/// round.
pub open spec fn weather_outcome(ev: WeatherEvent) -> Result<WeatherReading, LookupError> {
    match ev {
        WeatherEvent::Answered { current_deci } => match current_deci {
            Some(t) => Ok(WeatherReading { temperature_deci: t }),
            None => Err(LookupError::NoData),
        },
        WeatherEvent::Failed => Err(LookupError::Transport),
    }
}

/// Turns a weather event into the reading it carries, or into the error it
/// stands for.
pub fn reading_from_event(ev: WeatherEvent) -> (r: Result<WeatherReading, LookupError>)
    ensures
        r == weather_outcome(ev),
{
    match ev {
        WeatherEvent::Answered { current_deci } => match current_deci {
            Some(t) => Ok(WeatherReading { temperature_deci: t }),
            None => Err(LookupError::NoData),
        },
        WeatherEvent::Failed => Err(LookupError::Transport),
    }
}

} // verus!
