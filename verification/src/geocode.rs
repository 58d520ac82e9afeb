use vstd::prelude::*;
use crate::coord::Coordinate;
use crate::decimal::decimal_e7;
use crate::decimal::parse_decimal_e7;
use crate::errors::LookupError;

verus! {

/// Interpreting what the geocoding service sends back: a JSON array of
/// candidate places, each with `lat` and `lon` written as decimal strings.
/// An empty array is the service's way of saying "no match". Only the first
/// candidate is read; ties among several are left to the service's order.

/// ASCII codes of the two bytes of the empty JSON array.
pub const LEFT_BRACKET: u8 = 91;

pub const RIGHT_BRACKET: u8 = 93;

/// Whether a response body is the empty JSON array, the service's "no match".
/// Only this exact two-byte body counts: a padded or re-spelt empty array is
/// treated as any other JSON would be.
pub open spec fn is_no_match_body(body: Seq<u8>) -> bool {
    body.len() == 2 && body[0] == LEFT_BRACKET && body[1] == RIGHT_BRACKET
}

/// The `lat` and `lon` texts of the first candidate in a geocoding body, as
/// reading the JSON document gives them; nothing where the body is not a JSON
/// array whose first element carries both fields as strings. A fixed
/// function of the body alone: the same body always reads the same way.
pub uninterp spec fn first_candidate_fields(body: Seq<u8>) -> Option<(Seq<u8>, Seq<u8>)>;

/// Relies on serde_json (`from_slice`, `Value::get`, `Value::as_str`): parses
/// the body as JSON and reads the `lat` and `lon` strings of the first array
/// element, or returns nothing where the body or either field is not there.
#[verifier::external_body]
fn extract_first_candidate(body: &[u8]) -> (r: Option<(Vec<u8>, Vec<u8>)>)
    ensures
        match r {
            Some(f) => first_candidate_fields(body@) == Some((f.0@, f.1@)),
            None => first_candidate_fields(body@) is None,
        },
{
    let doc: serde_json::Value = serde_json::from_slice(body).ok()?;
    let first = doc.get(0)?;
    let lat = first.get("lat")?.as_str()?;
    let lon = first.get("lon")?.as_str()?;
    Some((lat.as_bytes().to_vec(), lon.as_bytes().to_vec()))
}

/// What the two field texts of a candidate mean: a coordinate where both are
/// decimal numerals, a transport failure (a malformed answer) otherwise.
pub open spec fn fields_outcome(lat_text: Seq<u8>, lon_text: Seq<u8>) -> Result<
    Coordinate,
    LookupError,
> {
    match (decimal_e7(lat_text), decimal_e7(lon_text)) {
        (Some(la), Some(lo)) => Ok(Coordinate { lat_e7: la as i64, lon_e7: lo as i64 }),
        _ => Err(LookupError::Transport),
    }
}

/// What a whole geocoding body means: "no match" for the empty array, a
/// coordinate where a first candidate with two decimal fields is there, and
/// a transport failure for anything else.
pub open spec fn geocode_outcome(body: Seq<u8>) -> Result<Coordinate, LookupError> {
    if is_no_match_body(body) {
        Err(LookupError::NotFound)
    } else {
        match first_candidate_fields(body) {
            None => Err(LookupError::Transport),
            Some(f) => fields_outcome(f.0, f.1),
        }
    }
}

/// Turns the two decimal texts of a geocoding candidate into a coordinate,
/// or reports the answer as malformed.
pub fn coordinate_from_fields(lat_text: &[u8], lon_text: &[u8]) -> (r: Result<
    Coordinate,
    LookupError,
>)
    ensures
        r == fields_outcome(lat_text@, lon_text@),
{
    let lat = parse_decimal_e7(lat_text);
    let lon = parse_decimal_e7(lon_text);
    match (lat, lon) {
        (Some(la), Some(lo)) => Ok(Coordinate { lat_e7: la, lon_e7: lo }),
        _ => Err(LookupError::Transport),
    }
}

/// Builds the text of one geocoding request: the endpoint prefix, the city
/// name, the fixed query parameters, and the injected API key, in that order
/// and nothing else. The key is configuration handed in by the caller, not a
/// value of this library.
pub fn build_geocode_query(prefix: &[u8], city: &[u8], params: &[u8], api_key: &[u8]) -> (r: Vec<
    u8,
>)
    ensures
        r@ == prefix@ + city@ + params@ + api_key@,
{
    let mut r: Vec<u8> = Vec::new();
    r.extend_from_slice(prefix);
    r.extend_from_slice(city);
    r.extend_from_slice(params);
    r.extend_from_slice(api_key);
    proof {
        assert(r@ =~= prefix@ + city@ + params@ + api_key@);
    }
    r
}

/// Interprets one geocoding response body: `NotFound` for the service's
/// empty-array "no match", the first candidate's coordinate where the body
/// carries one, and `Transport` for a malformed body.
pub fn parse_geocode_response(body: &[u8]) -> (r: Result<Coordinate, LookupError>)
    ensures
        r == geocode_outcome(body@),
{
    if body.len() == 2 && body[0] == LEFT_BRACKET && body[1] == RIGHT_BRACKET {
        return Err(LookupError::NotFound);
    }
    match extract_first_candidate(body) {
        None => Err(LookupError::Transport),
        Some((lat_text, lon_text)) => coordinate_from_fields(&lat_text, &lon_text),
    }
}

} // verus!
