use vstd::prelude::*;
use crate::error::LookupError;
use crate::json::{Json, json_get, json_of, parse_json};
use crate::num::{
    Decimal, lemma_pow10_18, lemma_pow10_mono, lemma_pow10_pos, pow10_u64, rat_eq, rat_le,
    spec_parse_decimal,
};

verus! {

/// Severity band of a livability score.
#[derive(Clone, Copy, PartialEq, Eq, Structural, Debug)]
pub enum Band {
    Low,
    Medium,
    High,
}

/// The band a score value belongs to: `Low` up to and including 4,
/// `Medium` above 4 up to and including 7, `High` above 7 up to and
/// including 10. A value below 0 or above 10 has no band: it is
/// malformed input.
pub open spec fn spec_band(d: Decimal) -> Option<Band> {
    if d.num() < 0 || !rat_le(d.num(), d.den(), 10, 1) {
        None
    } else if rat_le(d.num(), d.den(), 4, 1) {
        Some(Band::Low)
    } else if rat_le(d.num(), d.den(), 7, 1) {
        Some(Band::Medium)
    } else {
        Some(Band::High)
    }
}

/// Classifies a score into its severity band, rejecting values outside
/// the range 0 to 10.
pub fn classify(d: &Decimal) -> (r: Option<Band>)
    requires
        d.wf(),
    ensures
        r == spec_band(*d),
{
    proof {
        lemma_pow10_18();
        lemma_pow10_mono(d.scale as nat, 18);
        lemma_pow10_pos(d.scale as nat);
    }
    let p: u64 = pow10_u64(d.scale);
    if d.neg && d.mantissa > 0 {
        None
    } else if d.mantissa > 10 * p {
        None
    } else if d.mantissa <= 4 * p {
        Some(Band::Low)
    } else if d.mantissa <= 7 * p {
        Some(Band::Medium)
    } else {
        Some(Band::High)
    }
}

/// One named category score, with its derived severity band.
#[derive(Clone, Debug)]
pub struct ScoreEntry {
    pub name: String,
    pub score: Decimal,
    pub band: Band,
}

impl ScoreEntry {
    /// The band is exactly the classification of the score, and the
    /// score lies within 0 to 10.
    pub open spec fn wf(self) -> bool {
        self.score.wf() && spec_band(self.score) == Some(self.band)
    }
}

/// One element of the "categories" array: a "name" string and a
/// "score_out_of_10" number whose value has a band.
pub open spec fn spec_score_entry(e: Json) -> Result<ScoreEntry, LookupError> {
    match json_get(e, "name"@) {
        Some(Json::Str(name)) => match json_get(e, "score_out_of_10"@) {
            Some(Json::Num(lit)) => match spec_parse_decimal(lit@) {
                Some(d) => match spec_band(d) {
                    Some(b) => Ok(ScoreEntry { name: name, score: d, band: b }),
                    None => Err(LookupError::BadNumber),
                },
                None => Err(LookupError::BadNumber),
            },
            _ => Err(LookupError::MissingField),
        },
        _ => Err(LookupError::MissingField),
    }
}

pub fn score_entry(e: &Json) -> (r: Result<ScoreEntry, LookupError>)
    ensures
        match spec_score_entry(*e) {
            Ok(v) => r matches Ok(ent) && ent == v,
            Err(err) => r matches Err(e2) && e2 == err,
        },
        r matches Ok(ent) ==> ent.wf(),
{
    let name: String = match e.get("name") {
        Some(v) => match v {
            Json::Str(s) => s.clone(),
            _ => {
                return Err(LookupError::MissingField);
            },
        },
        None => {
            return Err(LookupError::MissingField);
        },
    };
    match e.get("score_out_of_10") {
        Some(v) => match v {
            Json::Num(lit) => match crate::num::parse_decimal(lit.as_str()) {
                Some(d) => match classify(&d) {
                    Some(b) => Ok(ScoreEntry { name, score: d, band: b }),
                    None => Err(LookupError::BadNumber),
                },
                None => Err(LookupError::BadNumber),
            },
            _ => Err(LookupError::MissingField),
        },
        None => Err(LookupError::MissingField),
    }
}

/// The entries read from the array elements in provider order; the
/// first malformed element's error, where there is one.
pub open spec fn spec_score_entries(items: Seq<Json>) -> Result<Seq<ScoreEntry>, LookupError>
    decreases items.len(),
{
    if items.len() == 0 {
        Ok(Seq::empty())
    } else {
        match spec_score_entries(items.drop_last()) {
            Ok(pre) => match spec_score_entry(items.last()) {
                Ok(ent) => Ok(pre.push(ent)),
                Err(e) => Err(e),
            },
            Err(e) => Err(e),
        }
    }
}

pub proof fn lemma_score_entries_first_error(items: Seq<Json>, i: int)
    requires
        0 <= i < items.len(),
        spec_score_entries(items.subrange(0, i)) is Ok,
        spec_score_entry(items[i]) is Err,
    ensures
        spec_score_entries(items) == Err::<Seq<ScoreEntry>, LookupError>(
            spec_score_entry(items[i]).unwrap_err(),
        ),
    decreases items.len(),
{
    let pre = items.drop_last();
    if i == items.len() - 1 {
        assert(items.subrange(0, i) =~= pre);
    } else {
        assert(pre.subrange(0, i) =~= items.subrange(0, i));
        assert(pre[i] == items[i]);
        lemma_score_entries_first_error(pre, i);
    }
}

pub fn score_entries(items: &Vec<Json>) -> (r: Result<Vec<ScoreEntry>, LookupError>)
    ensures
        match spec_score_entries(items@) {
            Ok(v) => r matches Ok(out) && out@ == v,
            Err(e) => r matches Err(e2) && e2 == e,
        },
        r matches Ok(out) ==> forall|i: int| 0 <= i < out@.len() ==> (#[trigger] out@[i]).wf(),
{
    let mut out: Vec<ScoreEntry> = Vec::new();
    let n: usize = items.len();
    let mut i: usize = 0;
    while i < n
        invariant
            0 <= i <= n,
            n == items@.len(),
            spec_score_entries(items@.subrange(0, i as int)) == Ok::<Seq<ScoreEntry>, LookupError>(
                out@,
            ),
            forall|k: int| 0 <= k < out@.len() ==> (#[trigger] out@[k]).wf(),
        decreases n - i,
    {
        let ghost prefix = items@.subrange(0, i as int);
        match score_entry(&items[i]) {
            Ok(ent) => {
                proof {
                    assert(items@.subrange(0, i + 1).drop_last() =~= prefix);
                    assert(items@.subrange(0, i + 1).last() == items@[i as int]);
                }
                out.push(ent);
            },
            Err(e) => {
                proof {
                    lemma_score_entries_first_error(items@, i as int);
                }
                return Err(e);
            },
        }
        i = i + 1;
    }
    proof {
        assert(items@.subrange(0, n as int) =~= items@);
    }
    Ok(out)
}

/// The ordered category scores a scores document holds: the
/// "categories" array read element by element, or the error where the
/// array is absent or an element malformed.
pub open spec fn spec_scores(j: Json) -> Result<Seq<ScoreEntry>, LookupError> {
    match json_get(j, "categories"@) {
        Some(Json::Arr(items)) => spec_score_entries(items@),
        _ => Err(LookupError::MissingField),
    }
}

pub fn scores_from_json(j: &Json) -> (r: Result<Vec<ScoreEntry>, LookupError>)
    ensures
        match spec_scores(*j) {
            Ok(v) => r matches Ok(out) && out@ == v,
            Err(e) => r matches Err(e2) && e2 == e,
        },
        r matches Ok(out) ==> forall|i: int| 0 <= i < out@.len() ==> (#[trigger] out@[i]).wf(),
{
    match j.get("categories") {
        Some(v) => match v {
            Json::Arr(items) => score_entries(items),
            _ => Err(LookupError::MissingField),
        },
        None => Err(LookupError::MissingField),
    }
}

/// What a scores response body yields: the parsed document's scores, or
/// the invalid-JSON error.
pub open spec fn spec_scores_response(oj: Option<Json>) -> Result<Seq<ScoreEntry>, LookupError> {
    match oj {
        Some(j) => spec_scores(j),
        None => Err(LookupError::BadJson),
    }
}

/// The ordered category scores of one city.
#[derive(Clone, Debug)]
pub struct CityScores {
    pub entries: Vec<ScoreEntry>,
}

impl CityScores {
    pub open spec fn wf(self) -> bool {
        forall|i: int| 0 <= i < self.entries@.len() ==> (#[trigger] self.entries@[i]).wf()
    }

    /// Reads the scores endpoint's response body.
    pub fn new(body: &str) -> (r: Result<CityScores, LookupError>)
        ensures
            match spec_scores_response(json_of(body@)) {
                Ok(v) => r matches Ok(cs) && cs.entries@ == v,
                Err(e) => r matches Err(e2) && e2 == e,
            },
            r matches Ok(cs) ==> cs.wf(),
    {
        match parse_json(body) {
            Some(j) => match scores_from_json(&j) {
                Ok(entries) => Ok(CityScores { entries }),
                Err(e) => Err(e),
            },
            None => Err(LookupError::BadJson),
        }
    }
}

/// A score of exactly 4 classifies as low and exactly 7 as medium; any
/// value above 7 up to 10 is high; a value below 0 or above 10 has no
/// band at all.
pub proof fn lemma_band_boundaries(d: Decimal)
    requires
        d.wf(),
    ensures
        rat_eq(d.num(), d.den(), 4, 1) ==> spec_band(d) == Some(Band::Low),
        rat_eq(d.num(), d.den(), 7, 1) ==> spec_band(d) == Some(Band::Medium),
        !rat_le(d.num(), d.den(), 7, 1) && rat_le(d.num(), d.den(), 10, 1) ==> spec_band(d)
            == Some(Band::High),
        d.num() < 0 || !rat_le(d.num(), d.den(), 10, 1) ==> spec_band(d) is None,
{
    lemma_pow10_pos(d.scale as nat);
}

/// Well-parsed score lists keep the provider's array order: entry `i`
/// of the output is read from element `i` of the "categories" array.
pub proof fn lemma_scores_preserve_order(items: Seq<Json>)
    requires
        spec_score_entries(items) is Ok,
    ensures
        spec_score_entries(items).unwrap().len() == items.len(),
        forall|i: int| 0 <= i < items.len() ==> Ok::<ScoreEntry, LookupError>(
            #[trigger] spec_score_entries(items).unwrap()[i],
        ) == spec_score_entry(items[i]),
    decreases items.len(),
{
    if items.len() > 0 {
        let pre = items.drop_last();
        lemma_scores_preserve_order(pre);
        assert(forall|i: int| 0 <= i < pre.len() ==> pre[i] == items[i]);
    }
}

/// A scores document without a "categories" array is the missing-field
/// error, never silently an empty list.
pub proof fn lemma_missing_categories_is_error(j: Json)
    requires
        match json_get(j, "categories"@) {
            Some(v) => !(v is Arr),
            None => true,
        },
    ensures
        spec_scores(j) == Err::<Seq<ScoreEntry>, LookupError>(LookupError::MissingField),
{
}

} // verus!
