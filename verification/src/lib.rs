//! Resolving a city name or a latitude/longitude pair into a current
//! temperature reading, with validation of geographic input.
//!
//! Positions and temperatures are carried as fixed-point integers: a
//! coordinate in ten-millionths of a degree, a temperature in tenths of a
//! degree. The functions here decide everything that does not need the
//! network: interpreting a geocoding answer, turning a weather answer into a
//! reading, validating ranges, and collapsing failures into the status codes
//! of the foreign boundary.

pub mod coord;
pub mod decimal;
pub mod errors;
pub mod geocode;
pub mod pipeline;
pub mod weather;
