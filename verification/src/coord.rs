use vstd::prelude::*;

verus! {

/// A geographic position, in ten-millionths of a degree.
///
/// The scale keeps every digit the geocoding service sends (it writes at most
/// seven places after the point) while staying in integer arithmetic.
#[derive(Clone, Copy, Debug, PartialEq, Eq, Structural)]
pub struct Coordinate {
    pub lat_e7: i64,
    pub lon_e7: i64,
}

/// 90 degrees in ten-millionths: the northern and southern limit of latitude.
pub const LAT_LIMIT_E7: i64 = 900_000_000;

/// 180 degrees in ten-millionths: the western and eastern limit of longitude.
pub const LON_LIMIT_E7: i64 = 1_800_000_000;

pub open spec fn latitude_in_range(lat_e7: int) -> bool {
    -900_000_000 <= lat_e7 <= 900_000_000
}

pub open spec fn longitude_in_range(lon_e7: int) -> bool {
    -1_800_000_000 <= lon_e7 <= 1_800_000_000
}

/// The status code the foreign boundary uses for a coordinate: latitude is
/// checked first, so a pair that is bad on both axes reports only the latitude.
pub open spec fn validation_code(lat_e7: int, lon_e7: int) -> i32 {
    if !latitude_in_range(lat_e7) {
        -2i32
    } else if !longitude_in_range(lon_e7) {
        -3i32
    } else {
        0i32
    }
}

/// Checks a coordinate pair against the geographic ranges: 0 for a valid
/// pair, -2 for a latitude outside [-90, 90] degrees (whatever the
/// longitude), -3 for a valid latitude with a longitude outside [-180, 180].
pub fn validate_coordinate(lat_e7: i64, lon_e7: i64) -> (code: i32)
    ensures
        code == validation_code(lat_e7 as int, lon_e7 as int),
{
    if lat_e7 < -LAT_LIMIT_E7 || lat_e7 > LAT_LIMIT_E7 {
        -2
    } else if lon_e7 < -LON_LIMIT_E7 || lon_e7 > LON_LIMIT_E7 {
        -3
    } else {
        0
    }
}

} // verus!
