use vstd::prelude::*;

verus! {

/// The single error kind of the whole lookup pipeline. Every failure is
/// terminal for the lookup; the variant records its cause.
#[derive(Clone, Copy, PartialEq, Eq, Structural, Debug)]
pub enum LookupError {
    /// The HTTP client could not deliver a response at all.
    Transport,
    /// A response body was not a valid JSON document.
    BadJson,
    /// An expected field was absent or carried a value of the wrong type.
    MissingField,
    /// The city search returned no result for the query.
    NoCityMatch,
    /// A numeric field could not be read as a decimal within the
    /// supported range, or a score lay outside its allowed range.
    BadNumber,
    /// The hourly forecast held fewer than the required 24 samples.
    ShortForecast,
}

/// The fixed message each cause is reported with.
pub open spec fn spec_describe(e: LookupError) -> Seq<char> {
    match e {
        LookupError::Transport => "transport failure"@,
        LookupError::BadJson => "response body is not valid JSON"@,
        LookupError::MissingField => "expected field is missing or has the wrong type"@,
        LookupError::NoCityMatch => "no city matches the query"@,
        LookupError::BadNumber => "numeric field is out of the supported range"@,
        LookupError::ShortForecast => "forecast holds fewer than 24 samples"@,
    }
}

impl LookupError {
    /// A short human-readable cause, for reporting at the process edge.
    pub fn describe(&self) -> (m: String)
        ensures
            m@ == spec_describe(*self),
    {
        match self {
            LookupError::Transport => "transport failure".to_owned(),
            LookupError::BadJson => "response body is not valid JSON".to_owned(),
            LookupError::MissingField => "expected field is missing or has the wrong type".to_owned(),
            LookupError::NoCityMatch => "no city matches the query".to_owned(),
            LookupError::BadNumber => "numeric field is out of the supported range".to_owned(),
            LookupError::ShortForecast => "forecast holds fewer than 24 samples".to_owned(),
        }
    }
}

} // verus!
