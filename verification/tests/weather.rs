use cityfacts::error::LookupError;
use cityfacts::num::parse_decimal;
use cityfacts::weather::{weather_url, Coordinates, WeatherData};

fn berlin() -> Coordinates {
    Coordinates {
        latitude: parse_decimal("52.52").unwrap(),
        longitude: parse_decimal("13.405").unwrap(),
        lat_text: "52.52".to_string(),
        lon_text: "13.405".to_string(),
    }
}

fn forecast_body(temps: &[&str]) -> String {
    let mut body = String::from("{\"hourly\":{\"temperature_2m\":[");
    for (i, t) in temps.iter().enumerate() {
        if i > 0 {
            body.push(',');
        }
        body.push_str(t);
    }
    body.push_str("]}}");
    body
}

#[test]
fn url_interpolates_both_coordinates() {
    assert_eq!(
        weather_url(&berlin()),
        "https://api.open-meteo.com/v1/forecast?latitude=52.52&longitude=13.405&hourly=temperature_2m"
    );
}

#[test]
fn constant_series_averages_to_the_constant() {
    let temps: Vec<&str> = vec!["10.0"; 24];
    let w = WeatherData::new(&berlin(), &forecast_body(&temps)).unwrap();
    assert!(w.avg_equals(&parse_decimal("10.0").unwrap()));
    assert!(!w.avg_equals(&parse_decimal("10.1").unwrap()));
}

#[test]
fn ascending_series_averages_to_eleven_point_five() {
    let temps: Vec<String> = (0..24).map(|i| i.to_string()).collect();
    let refs: Vec<&str> = temps.iter().map(|s| s.as_str()).collect();
    let w = WeatherData::new(&berlin(), &forecast_body(&refs)).unwrap();
    assert!(w.avg_equals(&parse_decimal("11.5").unwrap()));
}

#[test]
fn only_the_first_day_counts() {
    // 24 ones followed by noise: the average stays 1
    let mut temps: Vec<&str> = vec!["1"; 24];
    temps.push("1000.0");
    temps.push("-40.5");
    let w = WeatherData::new(&berlin(), &forecast_body(&temps)).unwrap();
    assert!(w.avg_equals(&parse_decimal("1").unwrap()));
}

#[test]
fn short_series_is_an_error() {
    let temps: Vec<&str> = vec!["10.0"; 23];
    let r = WeatherData::new(&berlin(), &forecast_body(&temps));
    assert_eq!(r.unwrap_err(), LookupError::ShortForecast);
}

#[test]
fn empty_series_is_an_error() {
    let r = WeatherData::new(&berlin(), &forecast_body(&[]));
    assert_eq!(r.unwrap_err(), LookupError::ShortForecast);
}

#[test]
fn missing_series_is_an_error() {
    let r = WeatherData::new(&berlin(), "{\"hourly\":{}}");
    assert_eq!(r.unwrap_err(), LookupError::MissingField);
}

#[test]
fn invalid_forecast_json_is_an_error() {
    let r = WeatherData::new(&berlin(), "{{");
    assert_eq!(r.unwrap_err(), LookupError::BadJson);
}

#[test]
fn negative_readings_average_exactly() {
    let mut temps: Vec<&str> = vec!["-1.5"; 12];
    temps.extend(vec!["1.5"; 12]);
    let w = WeatherData::new(&berlin(), &forecast_body(&temps)).unwrap();
    assert!(w.avg_equals(&parse_decimal("0").unwrap()));
}

#[test]
fn keeps_the_coordinates_it_was_given() {
    let temps: Vec<&str> = vec!["10.0"; 24];
    let w = WeatherData::new(&berlin(), &forecast_body(&temps)).unwrap();
    assert_eq!(w.latitude, parse_decimal("52.52").unwrap());
    assert_eq!(w.longitude, parse_decimal("13.405").unwrap());
}
