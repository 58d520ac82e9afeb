use city_weather::coord::Coordinate;
use city_weather::errors::LookupError;
use city_weather::geocode::build_geocode_query;
use city_weather::geocode::coordinate_from_fields;
use city_weather::geocode::parse_geocode_response;
use city_weather::pipeline::city_name_status;
use city_weather::pipeline::plan_after_geocode;
use city_weather::pipeline::resolve_step;
use city_weather::pipeline::temperature_or_sentinel;
use city_weather::pipeline::Plan;
use city_weather::weather::reading_from_event;
use city_weather::weather::WeatherEvent;
use city_weather::weather::WeatherReading;

#[test]
fn empty_array_means_no_match() {
    assert_eq!(parse_geocode_response(b"[]"), Err(LookupError::NotFound));
}

#[test]
fn first_candidate_is_read() {
    let body = br#"[{"lat":"51.5074","lon":"-0.1278"}]"#;
    let coord = Coordinate { lat_e7: 515_074_000, lon_e7: -1_278_000 };
    assert_eq!(parse_geocode_response(body), Ok(coord));
}

#[test]
fn later_candidates_are_ignored() {
    let body = br#"[{"lat":"26.2540493","lon":"29.2675469"},{"lat":"1","lon":"2"}]"#;
    let coord = Coordinate { lat_e7: 262_540_493, lon_e7: 292_675_469 };
    assert_eq!(parse_geocode_response(body), Ok(coord));
}

#[test]
fn malformed_json_is_a_transport_error() {
    assert_eq!(parse_geocode_response(b"["), Err(LookupError::Transport));
}

#[test]
fn padded_empty_array_is_not_a_no_match() {
    // only the exact two-byte body counts as the "no match" signal
    assert_eq!(parse_geocode_response(b" []"), Err(LookupError::Transport));
}

#[test]
fn numeric_fields_are_a_transport_error() {
    let body = br#"[{"lat":26.25,"lon":29.26}]"#;
    assert_eq!(parse_geocode_response(body), Err(LookupError::Transport));
}

#[test]
fn missing_field_is_a_transport_error() {
    let body = br#"[{"lat":"26.25"}]"#;
    assert_eq!(parse_geocode_response(body), Err(LookupError::Transport));
}

#[test]
fn object_body_is_a_transport_error() {
    let body = br#"{"lat":"26.25","lon":"29.26"}"#;
    assert_eq!(parse_geocode_response(body), Err(LookupError::Transport));
}

#[test]
fn candidate_with_bad_numeral_is_a_transport_error() {
    assert_eq!(coordinate_from_fields(b"abc", b"1"), Err(LookupError::Transport));
    assert_eq!(coordinate_from_fields(b"1", b""), Err(LookupError::Transport));
}

#[test]
fn candidate_fields_make_a_coordinate() {
    let coord = Coordinate { lat_e7: 515_000_000, lon_e7: -1_200_000 };
    assert_eq!(coordinate_from_fields(b"51.5", b"-0.12"), Ok(coord));
}

#[test]
fn query_text_is_the_four_parts_in_order() {
    let url = build_geocode_query(b"https://geo.example/search?q=", b"London", b"&api_key=", b"KEY");
    assert_eq!(url, b"https://geo.example/search?q=London&api_key=KEY".to_vec());
}

#[test]
fn failure_messages() {
    assert_eq!(LookupError::NotFound.message(), "Invalid City Name!");
    assert_eq!(LookupError::NoData.message(), "No data available for this location");
    assert_eq!(LookupError::Transport.message(), "Transport error");
}

#[test]
fn weather_reading_passes_through() {
    let ev = WeatherEvent::Answered { current_deci: Some(155) };
    assert_eq!(reading_from_event(ev), Ok(WeatherReading { temperature_deci: 155 }));
}

#[test]
fn missing_current_weather_is_no_data() {
    let ev = WeatherEvent::Answered { current_deci: None };
    assert_eq!(reading_from_event(ev), Err(LookupError::NoData));
}

#[test]
fn failed_weather_round_is_a_transport_error() {
    assert_eq!(reading_from_event(WeatherEvent::Failed), Err(LookupError::Transport));
}

#[test]
fn geocode_failure_stops_the_lookup() {
    let plan = plan_after_geocode(Err(LookupError::NotFound));
    assert_eq!(plan, Plan::Fail(LookupError::NotFound));
}

#[test]
fn geocode_success_fetches_the_weather() {
    let coord = Coordinate { lat_e7: 515_074_000, lon_e7: -1_278_000 };
    assert_eq!(plan_after_geocode(Ok(coord)), Plan::FetchWeather(coord));
}

#[test]
fn no_match_body_fails_the_lookup() {
    assert_eq!(resolve_step(b"[]"), Plan::Fail(LookupError::NotFound));
}

#[test]
fn city_status_codes() {
    let coord = Coordinate { lat_e7: 0, lon_e7: 0 };
    assert_eq!(city_name_status(&Ok(coord)), 0);
    assert_eq!(city_name_status(&Err(LookupError::NotFound)), -1);
    assert_eq!(city_name_status(&Err(LookupError::Transport)), -1);
}

#[test]
fn sentinel_collapses_every_failure_to_zero() {
    assert_eq!(temperature_or_sentinel(&Err(LookupError::NotFound)), 0);
    assert_eq!(temperature_or_sentinel(&Err(LookupError::NoData)), 0);
    assert_eq!(temperature_or_sentinel(&Err(LookupError::Transport)), 0);
    assert_eq!(temperature_or_sentinel(&Ok(WeatherReading { temperature_deci: 170 })), 170);
}

#[test]
fn by_name_lookup_end_to_end() {
    // a body like the geocoding service's answer for a London query
    let body = br#"[{"lat":"51.5074","lon":"-0.1278"}]"#;
    let plan = resolve_step(body);
    let coord = match plan {
        Plan::FetchWeather(c) => c,
        Plan::Fail(e) => panic!("lookup stopped early: {}", e.message()),
    };
    assert_eq!(coord, Coordinate { lat_e7: 515_074_000, lon_e7: -1_278_000 });
    let reading = reading_from_event(WeatherEvent::Answered { current_deci: Some(172) });
    assert_eq!(temperature_or_sentinel(&reading), 172);
}
