use cityfacts::error::LookupError;
use cityfacts::num::parse_decimal;
use cityfacts::score::{classify, Band, CityScores};

fn scores_body(entries: &[(&str, &str)]) -> String {
    let mut body = String::from("{\"categories\":[");
    for (i, (name, score)) in entries.iter().enumerate() {
        if i > 0 {
            body.push(',');
        }
        body.push_str(&format!(
            "{{\"name\":\"{}\",\"score_out_of_10\":{}}}",
            name, score
        ));
    }
    body.push_str("]}");
    body
}

#[test]
fn four_is_low() {
    let cs = CityScores::new(&scores_body(&[("Housing", "4.0")])).unwrap();
    assert_eq!(cs.entries.len(), 1);
    assert_eq!(cs.entries[0].band, Band::Low);
}

#[test]
fn seven_is_medium() {
    let cs = CityScores::new(&scores_body(&[("Safety", "7.0")])).unwrap();
    assert_eq!(cs.entries[0].band, Band::Medium);
}

#[test]
fn above_seven_is_high() {
    let cs = CityScores::new(&scores_body(&[("Healthcare", "7.001"), ("Education", "10")]))
        .unwrap();
    assert_eq!(cs.entries[0].band, Band::High);
    assert_eq!(cs.entries[1].band, Band::High);
}

#[test]
fn below_four_is_low() {
    let cs = CityScores::new(&scores_body(&[("Housing", "3.0"), ("Commute", "0")])).unwrap();
    assert_eq!(cs.entries[0].band, Band::Low);
    assert_eq!(cs.entries[1].band, Band::Low);
}

#[test]
fn out_of_range_scores_are_rejected() {
    let below = CityScores::new(&scores_body(&[("Housing", "-0.5")]));
    assert_eq!(below.unwrap_err(), LookupError::BadNumber);
    let above = CityScores::new(&scores_body(&[("Housing", "10.5")]));
    assert_eq!(above.unwrap_err(), LookupError::BadNumber);
}

#[test]
fn classify_matches_band_edges() {
    assert_eq!(classify(&parse_decimal("4.0").unwrap()), Some(Band::Low));
    assert_eq!(classify(&parse_decimal("4.000001").unwrap()), Some(Band::Medium));
    assert_eq!(classify(&parse_decimal("7.0").unwrap()), Some(Band::Medium));
    assert_eq!(classify(&parse_decimal("10.0").unwrap()), Some(Band::High));
    assert_eq!(classify(&parse_decimal("-1").unwrap()), None);
    assert_eq!(classify(&parse_decimal("10.000001").unwrap()), None);
}

#[test]
fn score_order_is_preserved() {
    let cs = CityScores::new(&scores_body(&[
        ("Zulu", "9.0"),
        ("Alpha", "1.0"),
        ("Mike", "5.0"),
    ]))
    .unwrap();
    let names: Vec<&str> = cs.entries.iter().map(|e| e.name.as_str()).collect();
    assert_eq!(names, vec!["Zulu", "Alpha", "Mike"]);
    assert_eq!(cs.entries[0].band, Band::High);
    assert_eq!(cs.entries[1].band, Band::Low);
    assert_eq!(cs.entries[2].band, Band::Medium);
}

#[test]
fn missing_categories_is_an_error_not_empty() {
    let r = CityScores::new("{\"something_else\":[]}");
    assert_eq!(r.unwrap_err(), LookupError::MissingField);
}

#[test]
fn invalid_scores_json_is_an_error() {
    let r = CityScores::new("categories: nope");
    assert_eq!(r.unwrap_err(), LookupError::BadJson);
}

#[test]
fn missing_name_is_an_error() {
    let r = CityScores::new("{\"categories\":[{\"score_out_of_10\":3.0}]}");
    assert_eq!(r.unwrap_err(), LookupError::MissingField);
}

#[test]
fn stringly_score_is_an_error() {
    let r = CityScores::new("{\"categories\":[{\"name\":\"Housing\",\"score_out_of_10\":\"3.0\"}]}");
    assert_eq!(r.unwrap_err(), LookupError::MissingField);
}

#[test]
fn empty_categories_is_empty_list() {
    let cs = CityScores::new("{\"categories\":[]}").unwrap();
    assert_eq!(cs.entries.len(), 0);
}
