use vstd::prelude::*;
use crate::error::LookupError;
use crate::json::{Json, json_get, json_of, parse_json};
use crate::num::{Decimal, spec_parse_decimal, parse_decimal};
use crate::salary::{CitySalaries, SalaryEntry, spec_salaries_response};
use crate::score::{CityScores, ScoreEntry, spec_scores_response};
use crate::weather::{Coordinates, WeatherData, spec_weather_response};

verus! {

/// Everything the city-detail resource carries that the dashboard
/// shows: the strict extraction of each field, absence being an error.
#[derive(Clone, Debug)]
pub struct CityDetail {
    pub population: u64,
    pub coords: Coordinates,
    pub geohash: String,
    pub full_name: String,
    pub geonameid: u64,
    pub country: String,
    pub timezone: String,
}

impl CityDetail {
    pub open spec fn wf(self) -> bool {
        self.coords.wf()
    }
}

/// A coordinate field: a number under `key` whose literal the decimal
/// grammar accepts, kept both as value and as literal.
pub open spec fn spec_coord(j: Json, key: Seq<char>) -> Result<(Decimal, String), LookupError> {
    match json_get(j, key) {
        Some(Json::Num(lit)) => match spec_parse_decimal(lit@) {
            Some(d) => Ok((d, lit)),
            None => Err(LookupError::BadNumber),
        },
        _ => Err(LookupError::MissingField),
    }
}

fn coord(j: &Json, key: &str) -> (r: Result<(Decimal, String), LookupError>)
    ensures
        match spec_coord(*j, key@) {
            Ok(v) => r matches Ok(p) && p.0 == v.0 && p.1 == v.1,
            Err(e) => r matches Err(e2) && e2 == e,
        },
        r matches Ok(p) ==> p.0.wf() && spec_parse_decimal(p.1@) == Some(p.0),
{
    match j.get(key) {
        Some(v) => match v {
            Json::Num(lit) => match parse_decimal(lit.as_str()) {
                Some(d) => Ok((d, lit.clone())),
                None => Err(LookupError::BadNumber),
            },
            _ => Err(LookupError::MissingField),
        },
        None => Err(LookupError::MissingField),
    }
}

/// The strict reading of a city-detail document, field by field in a
/// fixed order: coordinates under `location`.`latlon`, then population,
/// geohash, full name, the provider's numeric id, and the country and
/// timezone names under `_links`.
pub open spec fn spec_city_detail(j: Json) -> Result<CityDetail, LookupError> {
    match json_get(j, "location"@) {
        Some(loc) => match json_get(loc, "latlon"@) {
            Some(ll) => match spec_coord(ll, "latitude"@) {
                Ok(lat) => match spec_coord(ll, "longitude"@) {
                    Ok(lon) => match crate::json::spec_read_u64(j, "population"@) {
                        Ok(population) => match json_get(loc, "geohash"@) {
                            Some(Json::Str(geohash)) => match json_get(j, "full_name"@) {
                                Some(Json::Str(full_name)) => match crate::json::spec_read_u64(
                                    j,
                                    "geoname_id"@,
                                ) {
                                    Ok(geonameid) => match json_get(j, "_links"@) {
                                        Some(links) => match spec_link_name(
                                            links,
                                            "city:country"@,
                                        ) {
                                            Ok(country) => match spec_link_name(
                                                links,
                                                "city:timezone"@,
                                            ) {
                                                Ok(timezone) => Ok(
                                                    CityDetail {
                                                        population,
                                                        coords: Coordinates {
                                                            latitude: lat.0,
                                                            longitude: lon.0,
                                                            lat_text: lat.1,
                                                            lon_text: lon.1,
                                                        },
                                                        geohash,
                                                        full_name,
                                                        geonameid,
                                                        country,
                                                        timezone,
                                                    },
                                                ),
                                                Err(e) => Err(e),
                                            },
                                            Err(e) => Err(e),
                                        },
                                        None => Err(LookupError::MissingField),
                                    },
                                    Err(e) => Err(e),
                                },
                                _ => Err(LookupError::MissingField),
                            },
                            _ => Err(LookupError::MissingField),
                        },
                        Err(e) => Err(e),
                    },
                    Err(e) => Err(e),
                },
                Err(e) => Err(e),
            },
            None => Err(LookupError::MissingField),
        },
        None => Err(LookupError::MissingField),
    }
}

/// The "name" string of the link object `key` inside a `_links` table.
pub open spec fn spec_link_name(links: Json, key: Seq<char>) -> Result<String, LookupError> {
    match json_get(links, key) {
        Some(entry) => match json_get(entry, "name"@) {
            Some(Json::Str(name)) => Ok(name),
            _ => Err(LookupError::MissingField),
        },
        None => Err(LookupError::MissingField),
    }
}

fn link_name(links: &Json, key: &str) -> (r: Result<String, LookupError>)
    ensures
        match spec_link_name(*links, key@) {
            Ok(v) => r matches Ok(s) && s == v,
            Err(e) => r matches Err(e2) && e2 == e,
        },
{
    match links.get(key) {
        Some(entry) => match entry.get("name") {
            Some(v) => match v {
                Json::Str(name) => Ok(name.clone()),
                _ => Err(LookupError::MissingField),
            },
            None => Err(LookupError::MissingField),
        },
        None => Err(LookupError::MissingField),
    }
}

pub fn city_detail_from_json(j: &Json) -> (r: Result<CityDetail, LookupError>)
    ensures
        match spec_city_detail(*j) {
            Ok(v) => r matches Ok(d) && d == v,
            Err(e) => r matches Err(e2) && e2 == e,
        },
        r matches Ok(d) ==> d.wf(),
{
    let loc: &Json = match j.get("location") {
        Some(v) => v,
        None => {
            return Err(LookupError::MissingField);
        },
    };
    let ll: &Json = match loc.get("latlon") {
        Some(v) => v,
        None => {
            return Err(LookupError::MissingField);
        },
    };
    let lat: (Decimal, String) = match coord(ll, "latitude") {
        Ok(v) => v,
        Err(e) => {
            return Err(e);
        },
    };
    let lon: (Decimal, String) = match coord(ll, "longitude") {
        Ok(v) => v,
        Err(e) => {
            return Err(e);
        },
    };
    let population: u64 = match crate::json::read_u64(j, "population") {
        Ok(v) => v,
        Err(e) => {
            return Err(e);
        },
    };
    let geohash: String = match loc.get("geohash") {
        Some(v) => match v {
            Json::Str(s) => s.clone(),
            _ => {
                return Err(LookupError::MissingField);
            },
        },
        None => {
            return Err(LookupError::MissingField);
        },
    };
    let full_name: String = match j.get("full_name") {
        Some(v) => match v {
            Json::Str(s) => s.clone(),
            _ => {
                return Err(LookupError::MissingField);
            },
        },
        None => {
            return Err(LookupError::MissingField);
        },
    };
    let geonameid: u64 = match crate::json::read_u64(j, "geoname_id") {
        Ok(v) => v,
        Err(e) => {
            return Err(e);
        },
    };
    let links: &Json = match j.get("_links") {
        Some(v) => v,
        None => {
            return Err(LookupError::MissingField);
        },
    };
    let country: String = match link_name(links, "city:country") {
        Ok(v) => v,
        Err(e) => {
            return Err(e);
        },
    };
    let timezone: String = match link_name(links, "city:timezone") {
        Ok(v) => v,
        Err(e) => {
            return Err(e);
        },
    };
    Ok(
        CityDetail {
            population,
            coords: Coordinates {
                latitude: lat.0,
                longitude: lon.0,
                lat_text: lat.1,
                lon_text: lon.1,
            },
            geohash,
            full_name,
            geonameid,
            country,
            timezone,
        },
    )
}

/// What a city-detail response body yields.
pub open spec fn spec_city_detail_response(oj: Option<Json>) -> Result<CityDetail, LookupError> {
    match oj {
        Some(j) => spec_city_detail(j),
        None => Err(LookupError::BadJson),
    }
}

/// Reads the city-detail endpoint's response body. The coordinates it
/// yields drive the forecast fetch.
pub fn city_detail_from_response(body: &str) -> (r: Result<CityDetail, LookupError>)
    ensures
        match spec_city_detail_response(json_of(body@)) {
            Ok(v) => r matches Ok(d) && d == v,
            Err(e) => r matches Err(e2) && e2 == e,
        },
        r matches Ok(d) ==> d.wf(),
{
    match parse_json(body) {
        Some(j) => city_detail_from_json(&j),
        None => Err(LookupError::BadJson),
    }
}

/// The merged, immutable record one lookup produces.
#[derive(Clone, Debug)]
pub struct CityFacts {
    pub population: u64,
    pub coords: Coordinates,
    pub geohash: String,
    pub country: String,
    pub timezone: String,
    pub full_name: String,
    pub geonameid: u64,
    pub scores: CityScores,
    pub salaries: CitySalaries,
    pub weather: WeatherData,
}

impl CityFacts {
    pub open spec fn wf(self) -> bool {
        &&& self.coords.wf()
        &&& self.scores.wf()
        &&& self.salaries.wf()
        &&& self.weather.wf()
        &&& self.weather.latitude == self.coords.latitude
        &&& self.weather.longitude == self.coords.longitude
    }

    /// Assembles the dashboard record from the four response bodies:
    /// the city detail first, then the forecast, the scores and the
    /// salaries; the first failure is the lookup's failure, unchanged.
    pub fn new(
        city_body: &str,
        weather_body: &str,
        scores_body: &str,
        salaries_body: &str,
    ) -> (r: Result<CityFacts, LookupError>)
        ensures
            match spec_assemble(
                json_of(city_body@),
                json_of(weather_body@),
                json_of(scores_body@),
                json_of(salaries_body@),
            ) {
                Ok(parts) => r matches Ok(f) && f.population == parts.0.population && f.coords
                    == parts.0.coords && f.geohash == parts.0.geohash && f.country
                    == parts.0.country && f.timezone == parts.0.timezone && f.full_name
                    == parts.0.full_name && f.geonameid == parts.0.geonameid && f.weather.avg_num
                    == parts.1 && f.weather.avg_den == 24000000u64 && f.scores.entries@ == parts.2
                    && f.salaries.entries@ == parts.3,
                Err(e) => r matches Err(e2) && e2 == e,
            },
            r matches Ok(f) ==> f.wf(),
    {
        let detail: CityDetail = match city_detail_from_response(city_body) {
            Ok(d) => d,
            Err(e) => {
                return Err(e);
            },
        };
        let weather: WeatherData = match WeatherData::new(&detail.coords, weather_body) {
            Ok(w) => w,
            Err(e) => {
                return Err(e);
            },
        };
        let scores: CityScores = match CityScores::new(scores_body) {
            Ok(s) => s,
            Err(e) => {
                return Err(e);
            },
        };
        let salaries: CitySalaries = match CitySalaries::new(salaries_body) {
            Ok(s) => s,
            Err(e) => {
                return Err(e);
            },
        };
        Ok(
            CityFacts {
                population: detail.population,
                coords: detail.coords,
                geohash: detail.geohash,
                country: detail.country,
                timezone: detail.timezone,
                full_name: detail.full_name,
                geonameid: detail.geonameid,
                scores,
                salaries,
                weather,
            },
        )
    }
}

/// What the four response bodies of one lookup merge into: the city
/// detail, the scaled forecast sum, and the two ordered lists; or the
/// first failure in that order.
pub open spec fn spec_assemble(
    cj: Option<Json>,
    wj: Option<Json>,
    scj: Option<Json>,
    salj: Option<Json>,
) -> Result<(CityDetail, int, Seq<ScoreEntry>, Seq<SalaryEntry>), LookupError> {
    match spec_city_detail_response(cj) {
        Ok(detail) => match spec_weather_response(wj) {
            Ok(sum) => match spec_scores_response(scj) {
                Ok(scores) => match spec_salaries_response(salj) {
                    Ok(salaries) => Ok((detail, sum, scores, salaries)),
                    Err(e) => Err(e),
                },
                Err(e) => Err(e),
            },
            Err(e) => Err(e),
        },
        Err(e) => Err(e),
    }
}

} // verus!
