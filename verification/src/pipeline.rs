use vstd::prelude::*;
use crate::coord::Coordinate;
use crate::errors::LookupError;
use crate::geocode::geocode_outcome;
use crate::geocode::parse_geocode_response;
use crate::weather::WeatherEvent;
use crate::weather::WeatherReading;
use crate::weather::weather_outcome;

verus! {

/// The by-name lookup runs in two rounds: geocode the name, then fetch the
/// weather at the coordinate. The caller performs each network round and
/// hands the raw outcome back; the functions here make every decision in
/// between and collapse the result into the codes of the foreign boundary.

/// What to do once the geocoding round is over.
#[derive(Clone, Copy, Debug, PartialEq, Eq)]
pub enum Plan {
    /// Ask the weather endpoint about this coordinate next.
    FetchWeather(Coordinate),
    /// Stop: the lookup already failed.
    Fail(LookupError),
}

/// The decision after geocoding: carry a coordinate forward, stop on any
/// failure. Each error kind passes through unchanged.
pub open spec fn plan_spec(geo: Result<Coordinate, LookupError>) -> Plan {
    match geo {
        Ok(c) => Plan::FetchWeather(c),
        Err(e) => Plan::Fail(e),
    }
}

pub fn plan_after_geocode(geo: Result<Coordinate, LookupError>) -> (p: Plan)
    ensures
        p == plan_spec(geo),
{
    match geo {
        Ok(c) => Plan::FetchWeather(c),
        Err(e) => Plan::Fail(e),
    }
}

/// Reads one geocoding response body and decides the next step of a by-name
/// lookup.
pub fn resolve_step(body: &[u8]) -> (p: Plan)
    ensures
        p == plan_spec(geocode_outcome(body@)),
{
    let geo = parse_geocode_response(body);
    plan_after_geocode(geo)
}

/// What a whole by-name lookup means: the geocoding body decides whether the
/// weather round happens at all; where it does, the weather event decides
/// the reading. A geocoding failure short-circuits with its own error kind.
pub open spec fn by_name_outcome(body: Seq<u8>, ev: WeatherEvent) -> Result<
    WeatherReading,
    LookupError,
> {
    match geocode_outcome(body) {
        Ok(_) => weather_outcome(ev),
        Err(e) => Err(e),
    }
}

/// The foreign boundary's verdict on a city name: 0 where geocoding found a
/// coordinate, -1 on any failure.
pub open spec fn city_status_spec(geo: Result<Coordinate, LookupError>) -> i32 {
    match geo {
        Ok(_) => 0i32,
        Err(_) => -1i32,
    }
}

pub fn city_name_status(geo: &Result<Coordinate, LookupError>) -> (code: i32)
    ensures
        code == city_status_spec(*geo),
{
    match geo {
        Ok(_) => 0,
        Err(_) => -1,
    }
}

/// The foreign boundary's lossy temperature: the reading's value, and zero on
/// any failure. A genuine zero-degree reading and a failure are
/// indistinguishable there, by the fixed contract of the boundary.
pub open spec fn sentinel_spec(r: Result<WeatherReading, LookupError>) -> i64 {
    match r {
        Ok(w) => w.temperature_deci,
        Err(_) => 0i64,
    }
}

pub fn temperature_or_sentinel(r: &Result<WeatherReading, LookupError>) -> (t: i64)
    ensures
        t == sentinel_spec(*r),
{
    match r {
        Ok(w) => w.temperature_deci,
        Err(_) => 0,
    }
}

/// A geocoding answer with no match makes the city name invalid and the
/// by-name temperature the zero sentinel, whatever the weather endpoint
/// would have said.
pub proof fn lemma_no_match_yields_error(body: Seq<u8>, ev: WeatherEvent)
    requires
        crate::geocode::is_no_match_body(body),
    ensures
        geocode_outcome(body) == Err::<Coordinate, LookupError>(LookupError::NotFound),
        city_status_spec(geocode_outcome(body)) == -1,
        sentinel_spec(by_name_outcome(body, ev)) == 0,
{
}

/// Against unchanged remote data — the same geocoding body and the same
/// weather answer — a repeated by-name lookup resolves to the same
/// coordinate and returns the same reading.
pub proof fn lemma_lookup_idempotent(
    body_first: Seq<u8>,
    body_second: Seq<u8>,
    ev_first: WeatherEvent,
    ev_second: WeatherEvent,
)
    requires
        body_first == body_second,
        ev_first == ev_second,
    ensures
        geocode_outcome(body_first) == geocode_outcome(body_second),
        by_name_outcome(body_first, ev_first) == by_name_outcome(body_second, ev_second),
{
}

} // verus!
