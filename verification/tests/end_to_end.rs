use cityfacts::error::LookupError;
use cityfacts::facts::{city_detail_from_response, CityFacts};
use cityfacts::num::parse_decimal;
use cityfacts::score::Band;
use cityfacts::urls::{resolve, search_url};
use cityfacts::weather::weather_url;

const SEARCH_BODY: &str = "{\"_embedded\":{\"city:search-results\":[{\"_links\":{\"city:item\":{\"href\":\"https://api.teleport.org/api/cities/geonameid:2950159/\"}}}]}}";

fn city_body() -> String {
    String::from(
        "{\"population\":3769000,\
          \"full_name\":\"Berlin, Germany\",\
          \"geoname_id\":2950159,\
          \"location\":{\"geohash\":\"u33db8mmzj1t\",\
                        \"latlon\":{\"latitude\":52.52,\"longitude\":13.405}},\
          \"_links\":{\"city:urban_area\":{\"href\":\"https://api.teleport.org/api/urbanareas/slug:berlin/\"},\
                      \"city:country\":{\"name\":\"Germany\"},\
                      \"city:timezone\":{\"name\":\"Europe/Berlin\"}}}",
    )
}

const SCORES_BODY: &str = "{\"categories\":[{\"name\":\"Housing\",\"score_out_of_10\":3.0}]}";
const SALARIES_BODY: &str = "{\"salaries\":[{\"job\":{\"title\":\"Engineer\"},\"salary_percentiles\":{\"percentile_50\":65000.0}}]}";

fn weather_body() -> String {
    let mut body = String::from("{\"hourly\":{\"temperature_2m\":[");
    for i in 0..24 {
        if i > 0 {
            body.push(',');
        }
        body.push_str("10.0");
    }
    body.push_str("]}}");
    body
}

#[test]
fn berlin_lookup_end_to_end() {
    // resolve the endpoint chain from the query
    assert_eq!(
        search_url("Berlin"),
        "https://api.teleport.org/api/cities/?search=Berlin"
    );
    let urls = resolve(SEARCH_BODY, &city_body()).unwrap();
    assert_eq!(
        urls.score_url,
        "https://api.teleport.org/api/urbanareas/slug:berlin/scores/"
    );
    assert_eq!(
        urls.salary_url,
        "https://api.teleport.org/api/urbanareas/slug:berlin/salaries/"
    );

    // the detail's coordinates drive the forecast URL
    let detail = city_detail_from_response(&city_body()).unwrap();
    assert_eq!(
        weather_url(&detail.coords),
        "https://api.open-meteo.com/v1/forecast?latitude=52.52&longitude=13.405&hourly=temperature_2m"
    );

    // merge all four responses
    let facts = CityFacts::new(&city_body(), &weather_body(), SCORES_BODY, SALARIES_BODY)
        .unwrap();
    assert_eq!(facts.population, 3769000);
    assert_eq!(facts.geonameid, 2950159);
    assert_eq!(facts.full_name, "Berlin, Germany");
    assert_eq!(facts.country, "Germany");
    assert_eq!(facts.timezone, "Europe/Berlin");
    assert_eq!(facts.geohash, "u33db8mmzj1t");
    assert_eq!(facts.coords.latitude, parse_decimal("52.52").unwrap());
    assert_eq!(facts.coords.longitude, parse_decimal("13.405").unwrap());

    assert_eq!(facts.scores.entries.len(), 1);
    assert_eq!(facts.scores.entries[0].name, "Housing");
    assert_eq!(facts.scores.entries[0].score, parse_decimal("3.0").unwrap());
    assert_eq!(facts.scores.entries[0].band, Band::Low);

    assert_eq!(facts.salaries.entries.len(), 1);
    assert_eq!(facts.salaries.entries[0].title, "Engineer");
    assert_eq!(
        facts.salaries.entries[0].median,
        parse_decimal("65000.0").unwrap()
    );

    assert!(facts.weather.avg_equals(&parse_decimal("10.0").unwrap()));
}

#[test]
fn missing_population_fails_the_merge() {
    let body = city_body().replace("\"population\":3769000,", "");
    let r = CityFacts::new(&body, &weather_body(), SCORES_BODY, SALARIES_BODY);
    assert_eq!(r.unwrap_err(), LookupError::MissingField);
}

#[test]
fn fractional_population_fails_the_merge() {
    let body = city_body().replace("\"population\":3769000,", "\"population\":3769000.5,");
    let r = CityFacts::new(&body, &weather_body(), SCORES_BODY, SALARIES_BODY);
    assert_eq!(r.unwrap_err(), LookupError::BadNumber);
}

#[test]
fn sub_fetch_failures_propagate_unchanged() {
    let r = CityFacts::new(&city_body(), "{}", SCORES_BODY, SALARIES_BODY);
    assert_eq!(r.unwrap_err(), LookupError::MissingField);
    let r = CityFacts::new(&city_body(), &weather_body(), "{}", SALARIES_BODY);
    assert_eq!(r.unwrap_err(), LookupError::MissingField);
    let r = CityFacts::new(&city_body(), &weather_body(), SCORES_BODY, "not json");
    assert_eq!(r.unwrap_err(), LookupError::BadJson);
}
