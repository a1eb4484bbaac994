use cityfacts::error::LookupError;
use cityfacts::num::parse_decimal;
use cityfacts::salary::CitySalaries;

fn salaries_body(entries: &[(&str, &str)]) -> String {
    let mut body = String::from("{\"salaries\":[");
    for (i, (title, median)) in entries.iter().enumerate() {
        if i > 0 {
            body.push(',');
        }
        body.push_str(&format!(
            "{{\"job\":{{\"title\":\"{}\"}},\"salary_percentiles\":{{\"percentile_50\":{}}}}}",
            title, median
        ));
    }
    body.push_str("]}");
    body
}

#[test]
fn reads_title_and_median() {
    let cs = CitySalaries::new(&salaries_body(&[("Engineer", "65000.0")])).unwrap();
    assert_eq!(cs.entries.len(), 1);
    assert_eq!(cs.entries[0].title, "Engineer");
    assert_eq!(cs.entries[0].median, parse_decimal("65000.0").unwrap());
}

#[test]
fn keeps_full_precision() {
    let cs = CitySalaries::new(&salaries_body(&[("Analyst", "48402.375")])).unwrap();
    assert_eq!(cs.entries[0].median, parse_decimal("48402.375").unwrap());
}

#[test]
fn salary_order_is_preserved() {
    let cs = CitySalaries::new(&salaries_body(&[
        ("Zookeeper", "30000.0"),
        ("Accountant", "52000.0"),
        ("Nurse", "41000.0"),
    ]))
    .unwrap();
    let titles: Vec<&str> = cs.entries.iter().map(|e| e.title.as_str()).collect();
    assert_eq!(titles, vec!["Zookeeper", "Accountant", "Nurse"]);
}

#[test]
fn missing_salaries_is_an_error() {
    let r = CitySalaries::new("{\"categories\":[]}");
    assert_eq!(r.unwrap_err(), LookupError::MissingField);
}

#[test]
fn invalid_salaries_json_is_an_error() {
    let r = CitySalaries::new("[not json");
    assert_eq!(r.unwrap_err(), LookupError::BadJson);
}

#[test]
fn missing_percentile_is_an_error() {
    let r = CitySalaries::new("{\"salaries\":[{\"job\":{\"title\":\"Engineer\"}}]}");
    assert_eq!(r.unwrap_err(), LookupError::MissingField);
}
