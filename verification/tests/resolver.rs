use cityfacts::error::LookupError;
use cityfacts::urls::{city_item_url_from_response, resolve, search_url, City, CityUrls};

const SEARCH_BODY: &str = "{\"_embedded\":{\"city:search-results\":[{\"_links\":{\"city:item\":{\"href\":\"https://api.teleport.org/api/cities/geonameid:2950159/\"}}}]}}";
const CITY_BODY: &str = "{\"_links\":{\"city:urban_area\":{\"href\":\"https://api.teleport.org/api/urbanareas/slug:berlin/\"}}}";

#[test]
fn search_url_interpolates_the_query() {
    assert_eq!(
        search_url("Berlin"),
        "https://api.teleport.org/api/cities/?search=Berlin"
    );
}

#[test]
fn first_result_link_is_taken_verbatim() {
    let link = city_item_url_from_response(SEARCH_BODY).unwrap();
    assert_eq!(link, "https://api.teleport.org/api/cities/geonameid:2950159/");
}

#[test]
fn resolved_urls_carry_the_fixed_suffixes() {
    let urls: CityUrls = resolve(SEARCH_BODY, CITY_BODY).unwrap();
    assert_eq!(urls.geo_name_id_url, "https://api.teleport.org/api/cities/geonameid:2950159/");
    assert_eq!(urls.base_urban_url, "https://api.teleport.org/api/urbanareas/slug:berlin/");
    assert_eq!(
        urls.salary_url,
        "https://api.teleport.org/api/urbanareas/slug:berlin/salaries/"
    );
    assert_eq!(
        urls.score_url,
        "https://api.teleport.org/api/urbanareas/slug:berlin/scores/"
    );
    assert_eq!(urls.salary_url, format!("{}salaries/", urls.base_urban_url));
    assert_eq!(urls.score_url, format!("{}scores/", urls.base_urban_url));
}

#[test]
fn city_new_bundles_the_query() {
    let city = City::new("Berlin".to_string(), SEARCH_BODY, CITY_BODY).unwrap();
    assert_eq!(city.query, "Berlin");
    assert_eq!(
        city.urls.score_url,
        "https://api.teleport.org/api/urbanareas/slug:berlin/scores/"
    );
}

#[test]
fn empty_search_results_is_no_match() {
    let r = resolve("{\"_embedded\":{\"city:search-results\":[]}}", CITY_BODY);
    assert_eq!(r.unwrap_err(), LookupError::NoCityMatch);
}

#[test]
fn invalid_search_json_is_an_error() {
    let r = resolve("nope", CITY_BODY);
    assert_eq!(r.unwrap_err(), LookupError::BadJson);
}

#[test]
fn invalid_city_json_is_an_error() {
    let r = resolve(SEARCH_BODY, "nope");
    assert_eq!(r.unwrap_err(), LookupError::BadJson);
}

#[test]
fn missing_urban_link_is_an_error() {
    let r = resolve(SEARCH_BODY, "{\"_links\":{}}");
    assert_eq!(r.unwrap_err(), LookupError::MissingField);
}

#[test]
fn missing_item_link_is_an_error() {
    let r = city_item_url_from_response("{\"_embedded\":{\"city:search-results\":[{\"_links\":{}}]}}");
    assert_eq!(r.unwrap_err(), LookupError::MissingField);
}

#[test]
fn error_messages_name_their_cause() {
    assert_eq!(LookupError::NoCityMatch.describe(), "no city matches the query");
    assert_eq!(
        LookupError::BadJson.describe(),
        "response body is not valid JSON"
    );
    assert_eq!(LookupError::Transport.describe(), "transport failure");
    assert_eq!(
        LookupError::ShortForecast.describe(),
        "forecast holds fewer than 24 samples"
    );
}
