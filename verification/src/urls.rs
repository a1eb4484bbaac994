use vstd::prelude::*;
use vstd::string::StringExecFns;
use crate::error::LookupError;
use crate::json::{Json, json_get, json_of, parse_json};

verus! {

/// The search endpoint for a free-text city query, the query
/// interpolated verbatim.
pub fn search_url(query: &str) -> (u: String)
    ensures
        u@ == "https://api.teleport.org/api/cities/?search="@ + query@,
{
    let mut u: String = "https://api.teleport.org/api/cities/?search=".to_owned();
    u.append(query);
    u
}

/// The "city item" link of the first search result, taken verbatim: an
/// empty result list is the no-match error, any other missing piece the
/// missing-field error.
pub open spec fn spec_city_item_url(j: Json) -> Result<Seq<char>, LookupError> {
    match json_get(j, "_embedded"@) {
        Some(emb) => match json_get(emb, "city:search-results"@) {
            Some(Json::Arr(results)) => if results@.len() == 0 {
                Err(LookupError::NoCityMatch)
            } else {
                match json_get(results@[0], "_links"@) {
                    Some(links) => match json_get(links, "city:item"@) {
                        Some(item) => match json_get(item, "href"@) {
                            Some(Json::Str(href)) => Ok(href@),
                            _ => Err(LookupError::MissingField),
                        },
                        None => Err(LookupError::MissingField),
                    },
                    None => Err(LookupError::MissingField),
                }
            },
            _ => Err(LookupError::MissingField),
        },
        None => Err(LookupError::MissingField),
    }
}

pub fn city_item_url(j: &Json) -> (r: Result<String, LookupError>)
    ensures
        match spec_city_item_url(*j) {
            Ok(v) => r matches Ok(s) && s@ == v,
            Err(e) => r matches Err(e2) && e2 == e,
        },
{
    let emb: &Json = match j.get("_embedded") {
        Some(v) => v,
        None => {
            return Err(LookupError::MissingField);
        },
    };
    let results: &Vec<Json> = match emb.get("city:search-results") {
        Some(v) => match v {
            Json::Arr(items) => items,
            _ => {
                return Err(LookupError::MissingField);
            },
        },
        None => {
            return Err(LookupError::MissingField);
        },
    };
    if results.len() == 0 {
        return Err(LookupError::NoCityMatch);
    }
    let links: &Json = match results[0].get("_links") {
        Some(v) => v,
        None => {
            return Err(LookupError::MissingField);
        },
    };
    let item: &Json = match links.get("city:item") {
        Some(v) => v,
        None => {
            return Err(LookupError::MissingField);
        },
    };
    match item.get("href") {
        Some(v) => match v {
            Json::Str(href) => Ok(href.clone()),
            _ => Err(LookupError::MissingField),
        },
        None => Err(LookupError::MissingField),
    }
}

/// What a search response body yields as the city link.
pub open spec fn spec_city_item_response(oj: Option<Json>) -> Result<Seq<char>, LookupError> {
    match oj {
        Some(j) => spec_city_item_url(j),
        None => Err(LookupError::BadJson),
    }
}

/// Reads the search endpoint's response body and takes the first
/// result's city link.
pub fn city_item_url_from_response(body: &str) -> (r: Result<String, LookupError>)
    ensures
        match spec_city_item_response(json_of(body@)) {
            Ok(v) => r matches Ok(s) && s@ == v,
            Err(e) => r matches Err(e2) && e2 == e,
        },
{
    match parse_json(body) {
        Some(j) => city_item_url(&j),
        None => Err(LookupError::BadJson),
    }
}

/// The parent urban area's link inside a city resource:
/// `_links`."city:urban_area".href.
pub open spec fn spec_urban_url(j: Json) -> Result<Seq<char>, LookupError> {
    match json_get(j, "_links"@) {
        Some(links) => match json_get(links, "city:urban_area"@) {
            Some(ua) => match json_get(ua, "href"@) {
                Some(Json::Str(href)) => Ok(href@),
                _ => Err(LookupError::MissingField),
            },
            None => Err(LookupError::MissingField),
        },
        None => Err(LookupError::MissingField),
    }
}

pub fn urban_url(j: &Json) -> (r: Result<String, LookupError>)
    ensures
        match spec_urban_url(*j) {
            Ok(v) => r matches Ok(s) && s@ == v,
            Err(e) => r matches Err(e2) && e2 == e,
        },
{
    let links: &Json = match j.get("_links") {
        Some(v) => v,
        None => {
            return Err(LookupError::MissingField);
        },
    };
    let ua: &Json = match links.get("city:urban_area") {
        Some(v) => v,
        None => {
            return Err(LookupError::MissingField);
        },
    };
    match ua.get("href") {
        Some(v) => match v {
            Json::Str(href) => Ok(href.clone()),
            _ => Err(LookupError::MissingField),
        },
        None => Err(LookupError::MissingField),
    }
}

/// The four endpoint URLs one lookup needs: the city resource itself,
/// its parent urban area, and the urban area's salary and score lists.
#[derive(Clone, Debug)]
pub struct CityUrls {
    pub geo_name_id_url: String,
    pub base_urban_url: String,
    pub salary_url: String,
    pub score_url: String,
}

impl CityUrls {
    /// The salary and score endpoints are exactly the urban-area base
    /// with the fixed suffixes appended.
    pub open spec fn wf(self) -> bool {
        &&& self.salary_url@ == self.base_urban_url@ + "salaries/"@
        &&& self.score_url@ == self.base_urban_url@ + "scores/"@
    }

    /// Resolves the endpoints from the two provider responses of the
    /// search chain.
    pub fn new(search_body: &str, city_body: &str) -> (r: Result<CityUrls, LookupError>)
        ensures
            match spec_resolve(json_of(search_body@), json_of(city_body@)) {
                Ok(pair) => r matches Ok(u) && u.geo_name_id_url@ == pair.0
                    && u.base_urban_url@ == pair.1 && u.salary_url@ == pair.1 + "salaries/"@
                    && u.score_url@ == pair.1 + "scores/"@,
                Err(e) => r matches Err(e2) && e2 == e,
            },
            r matches Ok(u) ==> u.wf(),
    {
        resolve(search_body, city_body)
    }
}

/// What the two responses of the search chain resolve to: the city
/// link of the first search result, and the urban-area link of the
/// city resource; or the first failure along that chain.
pub open spec fn spec_resolve(sj: Option<Json>, cj: Option<Json>) -> Result<
    (Seq<char>, Seq<char>),
    LookupError,
> {
    match spec_city_item_response(sj) {
        Ok(city) => match cj {
            Some(c) => match spec_urban_url(c) {
                Ok(urban) => Ok((city, urban)),
                Err(e) => Err(e),
            },
            None => Err(LookupError::BadJson),
        },
        Err(e) => Err(e),
    }
}

/// Resolves a search response and the linked city resource's response
/// into the four endpoint URLs. The salary and score URLs are the
/// urban-area base with `salaries/` and `scores/` appended — exactly,
/// for every pair of responses the resolution accepts.
pub fn resolve(search_body: &str, city_body: &str) -> (r: Result<CityUrls, LookupError>)
    ensures
        match spec_resolve(json_of(search_body@), json_of(city_body@)) {
            Ok(pair) => r matches Ok(u) && u.geo_name_id_url@ == pair.0
                && u.base_urban_url@ == pair.1 && u.salary_url@ == pair.1 + "salaries/"@
                && u.score_url@ == pair.1 + "scores/"@,
            Err(e) => r matches Err(e2) && e2 == e,
        },
        r matches Ok(u) ==> u.wf(),
{
    let city: String = match city_item_url_from_response(search_body) {
        Ok(s) => s,
        Err(e) => {
            return Err(e);
        },
    };
    let urban: String = match parse_json(city_body) {
        Some(j) => match urban_url(&j) {
            Ok(s) => s,
            Err(e) => {
                return Err(e);
            },
        },
        None => {
            return Err(LookupError::BadJson);
        },
    };
    let mut salary_url: String = urban.clone();
    salary_url.append("salaries/");
    let mut score_url: String = urban.clone();
    score_url.append("scores/");
    Ok(CityUrls { geo_name_id_url: city, base_urban_url: urban, salary_url, score_url })
}

/// A city lookup in flight: the query as given, with its resolved
/// endpoints.
#[derive(Clone, Debug)]
pub struct City {
    pub query: String,
    pub urls: CityUrls,
}

impl City {
    /// Bundles a query with the endpoints its search chain resolved to.
    pub fn new(query: String, search_body: &str, city_body: &str) -> (r: Result<
        City,
        LookupError,
    >)
        ensures
            match spec_resolve(json_of(search_body@), json_of(city_body@)) {
                Ok(pair) => r matches Ok(c) && c.query == query && c.urls.wf()
                    && c.urls.geo_name_id_url@ == pair.0 && c.urls.base_urban_url@ == pair.1,
                Err(e) => r matches Err(e2) && e2 == e,
            },
    {
        match resolve(search_body, city_body) {
            Ok(urls) => Ok(City { query, urls }),
            Err(e) => Err(e),
        }
    }
}

} // verus!
