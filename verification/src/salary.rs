use vstd::prelude::*;
use crate::error::LookupError;
use crate::json::{Json, json_get, json_of, parse_json};
use crate::num::{Decimal, spec_parse_decimal, parse_decimal};

verus! {

/// One job title with its reported median (percentile-50) salary, kept
/// at the provider's full precision.
#[derive(Clone, Debug)]
pub struct SalaryEntry {
    pub title: String,
    pub median: Decimal,
}

impl SalaryEntry {
    pub open spec fn wf(self) -> bool {
        self.median.wf()
    }
}

/// One element of the "salaries" array: the median figure under
/// "salary_percentiles"."percentile_50", then the title under
/// "job"."title", read in that order.
pub open spec fn spec_salary_entry(e: Json) -> Result<SalaryEntry, LookupError> {
    match json_get(e, "salary_percentiles"@) {
        Some(sp) => match json_get(sp, "percentile_50"@) {
            Some(Json::Num(lit)) => match spec_parse_decimal(lit@) {
                Some(d) => match json_get(e, "job"@) {
                    Some(job) => match json_get(job, "title"@) {
                        Some(Json::Str(title)) => Ok(SalaryEntry { title: title, median: d }),
                        _ => Err(LookupError::MissingField),
                    },
                    None => Err(LookupError::MissingField),
                },
                None => Err(LookupError::BadNumber),
            },
            _ => Err(LookupError::MissingField),
        },
        None => Err(LookupError::MissingField),
    }
}

pub fn salary_entry(e: &Json) -> (r: Result<SalaryEntry, LookupError>)
    ensures
        match spec_salary_entry(*e) {
            Ok(v) => r matches Ok(ent) && ent == v,
            Err(err) => r matches Err(e2) && e2 == err,
        },
        r matches Ok(ent) ==> ent.wf(),
{
    let median: Decimal = match e.get("salary_percentiles") {
        Some(sp) => match sp.get("percentile_50") {
            Some(v) => match v {
                Json::Num(lit) => match parse_decimal(lit.as_str()) {
                    Some(d) => d,
                    None => {
                        return Err(LookupError::BadNumber);
                    },
                },
                _ => {
                    return Err(LookupError::MissingField);
                },
            },
            None => {
                return Err(LookupError::MissingField);
            },
        },
        None => {
            return Err(LookupError::MissingField);
        },
    };
    match e.get("job") {
        Some(job) => match job.get("title") {
            Some(v) => match v {
                Json::Str(title) => Ok(SalaryEntry { title: title.clone(), median }),
                _ => Err(LookupError::MissingField),
            },
            None => Err(LookupError::MissingField),
        },
        None => Err(LookupError::MissingField),
    }
}

/// The entries read from the array elements in provider order; the
/// first malformed element's error, where there is one.
pub open spec fn spec_salary_entries(items: Seq<Json>) -> Result<Seq<SalaryEntry>, LookupError>
    decreases items.len(),
{
    if items.len() == 0 {
        Ok(Seq::empty())
    } else {
        match spec_salary_entries(items.drop_last()) {
            Ok(pre) => match spec_salary_entry(items.last()) {
                Ok(ent) => Ok(pre.push(ent)),
                Err(e) => Err(e),
            },
            Err(e) => Err(e),
        }
    }
}

pub proof fn lemma_salary_entries_first_error(items: Seq<Json>, i: int)
    requires
        0 <= i < items.len(),
        spec_salary_entries(items.subrange(0, i)) is Ok,
        spec_salary_entry(items[i]) is Err,
    ensures
        spec_salary_entries(items) == Err::<Seq<SalaryEntry>, LookupError>(
            spec_salary_entry(items[i]).unwrap_err(),
        ),
    decreases items.len(),
{
    let pre = items.drop_last();
    if i == items.len() - 1 {
        assert(items.subrange(0, i) =~= pre);
    } else {
        assert(pre.subrange(0, i) =~= items.subrange(0, i));
        assert(pre[i] == items[i]);
        lemma_salary_entries_first_error(pre, i);
    }
}

pub fn salary_entries(items: &Vec<Json>) -> (r: Result<Vec<SalaryEntry>, LookupError>)
    ensures
        match spec_salary_entries(items@) {
            Ok(v) => r matches Ok(out) && out@ == v,
            Err(e) => r matches Err(e2) && e2 == e,
        },
        r matches Ok(out) ==> forall|i: int| 0 <= i < out@.len() ==> (#[trigger] out@[i]).wf(),
{
    let mut out: Vec<SalaryEntry> = Vec::new();
    let n: usize = items.len();
    let mut i: usize = 0;
    while i < n
        invariant
            0 <= i <= n,
            n == items@.len(),
            spec_salary_entries(items@.subrange(0, i as int)) == Ok::<
                Seq<SalaryEntry>,
                LookupError,
            >(out@),
            forall|k: int| 0 <= k < out@.len() ==> (#[trigger] out@[k]).wf(),
        decreases n - i,
    {
        let ghost prefix = items@.subrange(0, i as int);
        match salary_entry(&items[i]) {
            Ok(ent) => {
                proof {
                    assert(items@.subrange(0, i + 1).drop_last() =~= prefix);
                    assert(items@.subrange(0, i + 1).last() == items@[i as int]);
                }
                out.push(ent);
            },
            Err(e) => {
                proof {
                    lemma_salary_entries_first_error(items@, i as int);
                }
                return Err(e);
            },
        }
        i = i + 1;
    }
    proof {
        assert(items@.subrange(0, n as int) =~= items@);
    }
    Ok(out)
}

/// The ordered salary list a salaries document holds: the "salaries"
/// array read element by element, or the error where the array is
/// absent or an element malformed.
pub open spec fn spec_salaries(j: Json) -> Result<Seq<SalaryEntry>, LookupError> {
    match json_get(j, "salaries"@) {
        Some(Json::Arr(items)) => spec_salary_entries(items@),
        _ => Err(LookupError::MissingField),
    }
}

pub fn salaries_from_json(j: &Json) -> (r: Result<Vec<SalaryEntry>, LookupError>)
    ensures
        match spec_salaries(*j) {
            Ok(v) => r matches Ok(out) && out@ == v,
            Err(e) => r matches Err(e2) && e2 == e,
        },
        r matches Ok(out) ==> forall|i: int| 0 <= i < out@.len() ==> (#[trigger] out@[i]).wf(),
{
    match j.get("salaries") {
        Some(v) => match v {
            Json::Arr(items) => salary_entries(items),
            _ => Err(LookupError::MissingField),
        },
        None => Err(LookupError::MissingField),
    }
}

/// What a salaries response body yields: the parsed document's salary
/// list, or the invalid-JSON error.
pub open spec fn spec_salaries_response(oj: Option<Json>) -> Result<Seq<SalaryEntry>, LookupError> {
    match oj {
        Some(j) => spec_salaries(j),
        None => Err(LookupError::BadJson),
    }
}

/// The ordered median salaries of one city's urban area.
#[derive(Clone, Debug)]
pub struct CitySalaries {
    pub entries: Vec<SalaryEntry>,
}

impl CitySalaries {
    pub open spec fn wf(self) -> bool {
        forall|i: int| 0 <= i < self.entries@.len() ==> (#[trigger] self.entries@[i]).wf()
    }

    /// Reads the salaries endpoint's response body.
    pub fn new(body: &str) -> (r: Result<CitySalaries, LookupError>)
        ensures
            match spec_salaries_response(json_of(body@)) {
                Ok(v) => r matches Ok(cs) && cs.entries@ == v,
                Err(e) => r matches Err(e2) && e2 == e,
            },
            r matches Ok(cs) ==> cs.wf(),
    {
        match parse_json(body) {
            Some(j) => match salaries_from_json(&j) {
                Ok(entries) => Ok(CitySalaries { entries }),
                Err(e) => Err(e),
            },
            None => Err(LookupError::BadJson),
        }
    }
}

/// Well-parsed salary lists keep the provider's array order: entry `i`
/// of the output is read from element `i` of the "salaries" array.
pub proof fn lemma_salaries_preserve_order(items: Seq<Json>)
    requires
        spec_salary_entries(items) is Ok,
    ensures
        spec_salary_entries(items).unwrap().len() == items.len(),
        forall|i: int| 0 <= i < items.len() ==> Ok::<SalaryEntry, LookupError>(
            #[trigger] spec_salary_entries(items).unwrap()[i],
        ) == spec_salary_entry(items[i]),
    decreases items.len(),
{
    if items.len() > 0 {
        let pre = items.drop_last();
        lemma_salaries_preserve_order(pre);
        assert(forall|i: int| 0 <= i < pre.len() ==> pre[i] == items[i]);
    }
}

} // verus!
