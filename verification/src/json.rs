use vstd::prelude::*;
use crate::error::LookupError;
use crate::num::{Decimal, spec_parse_decimal, parse_decimal};

verus! {

/// A JSON document, held in the library's own terms. A number keeps the
/// decimal literal the provider wrote, so that no precision is decided
/// here; an object keeps its fields as a list looked up by key.
pub enum Json {
    Null,
    Bool(bool),
    Num(String),
    Str(String),
    Arr(Vec<Json>),
    Obj(Vec<(String, Json)>),
}

/// First field of `fs` whose key reads `key`, if any.
pub open spec fn fields_get(fs: Seq<(String, Json)>, key: Seq<char>) -> Option<Json>
    decreases fs.len(),
{
    if fs.len() == 0 {
        None
    } else if fs[0].0@ == key {
        Some(fs[0].1)
    } else {
        fields_get(fs.subrange(1, fs.len() as int), key)
    }
}

/// Field `key` of the object `j`; `None` where `j` is no object or has
/// no such field.
pub open spec fn json_get(j: Json, key: Seq<char>) -> Option<Json> {
    match j {
        Json::Obj(fs) => fields_get(fs@, key),
        _ => None,
    }
}

pub proof fn lemma_fields_get_skip(fs: Seq<(String, Json)>, key: Seq<char>, i: int)
    requires
        0 <= i <= fs.len(),
        forall|j: int| 0 <= j < i ==> #[trigger] fs[j].0@ != key,
    ensures
        fields_get(fs, key) == fields_get(fs.subrange(i, fs.len() as int), key),
    decreases i,
{
    if i == 0 {
        assert(fs.subrange(0, fs.len() as int) =~= fs);
    } else {
        let rest = fs.subrange(1, fs.len() as int);
        assert(fs[0].0@ != key);
        assert(fields_get(fs, key) == fields_get(rest, key));
        assert(forall|j: int| 0 <= j < i - 1 ==> rest[j] == fs[j + 1] && #[trigger] rest[j].0@ != key);
        lemma_fields_get_skip(rest, key, i - 1);
        assert(rest.subrange(i - 1, rest.len() as int) =~= fs.subrange(i, fs.len() as int));
    }
}

impl Json {
    /// Looks a key up in an object, as the providers' documents are
    /// navigated: `None` on a missing field or a non-object.
    pub fn get<'a>(&'a self, key: &str) -> (r: Option<&'a Json>)
        ensures
            match json_get(*self, key@) {
                Some(v) => r matches Some(rv) && *rv == v,
                None => r is None,
            },
    {
        match self {
            Json::Obj(fields) => {
                let key_s: String = key.to_owned();
                let n: usize = fields.len();
                let mut i: usize = 0;
                while i < n
                    invariant
                        0 <= i <= n,
                        n == fields@.len(),
                        self is Obj,
                        *fields == self->Obj_0,
                        key_s@ == key@,
                        forall|j: int| 0 <= j < i ==> #[trigger] fields@[j].0@ != key@,
                    decreases n - i,
                {
                    if fields[i].0.eq(&key_s) {
                        proof {
                            lemma_fields_get_skip(fields@, key@, i as int);
                            assert(fields@.subrange(i as int, n as int)[0] == fields@[i as int]);
                        }
                        return Some(&fields[i].1);
                    }
                    i = i + 1;
                }
                proof {
                    lemma_fields_get_skip(fields@, key@, n as int);
                }
                None
            },
            _ => None,
        }
    }
}

/// The numeric field `key` of `j` as the decimal it denotes: a missing
/// or non-numeric field is one error, a literal outside the supported
/// decimal grammar another.
pub open spec fn spec_read_dec(j: Json, key: Seq<char>) -> Result<Decimal, LookupError> {
    match json_get(j, key) {
        Some(Json::Num(lit)) => match spec_parse_decimal(lit@) {
            Some(d) => Ok(d),
            None => Err(LookupError::BadNumber),
        },
        _ => Err(LookupError::MissingField),
    }
}

pub fn read_dec(j: &Json, key: &str) -> (r: Result<Decimal, LookupError>)
    ensures
        r == spec_read_dec(*j, key@),
        r matches Ok(d) ==> d.wf(),
{
    match j.get(key) {
        Some(v) => match v {
            Json::Num(lit) => match parse_decimal(lit.as_str()) {
                Some(d) => Ok(d),
                None => Err(LookupError::BadNumber),
            },
            _ => Err(LookupError::MissingField),
        },
        None => Err(LookupError::MissingField),
    }
}

/// The numeric field `key` of `j` as an unsigned integer: the literal
/// must be plain digits.
pub open spec fn spec_read_u64(j: Json, key: Seq<char>) -> Result<u64, LookupError> {
    match spec_read_dec(j, key) {
        Ok(d) => if !d.neg && d.scale == 0 {
            Ok(d.mantissa)
        } else {
            Err(LookupError::BadNumber)
        },
        Err(e) => Err(e),
    }
}

pub fn read_u64(j: &Json, key: &str) -> (r: Result<u64, LookupError>)
    ensures
        r == spec_read_u64(*j, key@),
{
    match read_dec(j, key) {
        Ok(d) => if !d.neg && d.scale == 0 {
            Ok(d.mantissa)
        } else {
            Err(LookupError::BadNumber)
        },
        Err(e) => Err(e),
    }
}

#[verifier::external_type_specification]
#[verifier::external_body]
pub struct ExValue(serde_json::Value);

/// The JSON tree that a text denotes, as `serde_json` reads it:
/// `Some` exactly on the texts that are valid JSON documents. The tree
/// depends on the text alone.
pub uninterp spec fn json_of(s: Seq<char>) -> Option<Json>;

/// Relies on `serde_json::from_str` to decide validity and to parse;
/// the parsed document is carried over into the library's own tree by
/// `json_tree` below.
#[verifier::external_body]
pub(crate) fn parse_json(s: &str) -> (r: Option<Json>)
    ensures
        r == json_of(s@),
{
    match serde_json::from_str::<serde_json::Value>(s) {
        Ok(v) => Some(json_tree(&v)),
        Err(_) => None,
    }
}

/// Relies on `serde_json::Value` having exactly these six variants, and
/// on `Number`'s `Display` writing the number's decimal literal (itoa
/// for integers, the shortest float form otherwise). Each arm only
/// carries the variant's contents across.
#[verifier::external_body]
fn json_tree(v: &serde_json::Value) -> Json {
    match v {
        serde_json::Value::Null => Json::Null,
        serde_json::Value::Bool(b) => Json::Bool(*b),
        serde_json::Value::Number(n) => Json::Num(n.to_string()),
        serde_json::Value::String(s) => Json::Str(s.clone()),
        serde_json::Value::Array(a) => Json::Arr(a.iter().map(json_tree).collect()),
        serde_json::Value::Object(o) => Json::Obj(
            o.iter().map(|(k, x)| (k.clone(), json_tree(x))).collect(),
        ),
    }
}

} // verus!
