use vstd::prelude::*;
use vstd::string::StringExecFns;
use crate::error::LookupError;
use crate::json::{Json, json_get, json_of, parse_json};
use crate::num::{
    Decimal, lemma_pow10_18, lemma_pow10_add, lemma_pow10_mono, lemma_pow10_pos, parse_decimal,
    pow10, pow10_u64, rat_eq, spec_parse_decimal,
};

verus! {

/// A latitude/longitude pair, as read from the city-detail document:
/// the decimal values together with the exact literals they were
/// written as, for interpolation into the forecast URL.
#[derive(Clone, Debug)]
pub struct Coordinates {
    pub latitude: Decimal,
    pub longitude: Decimal,
    pub lat_text: String,
    pub lon_text: String,
}

impl Coordinates {
    /// The kept literals denote exactly the kept values.
    pub open spec fn wf(self) -> bool {
        &&& spec_parse_decimal(self.lat_text@) == Some(self.latitude)
        &&& spec_parse_decimal(self.lon_text@) == Some(self.longitude)
        &&& self.latitude.wf()
        &&& self.longitude.wf()
    }
}

/// The forecast endpoint for a coordinate pair.
pub fn weather_url(c: &Coordinates) -> (u: String)
    ensures
        u@ == "https://api.open-meteo.com/v1/forecast?latitude="@ + c.lat_text@ + "&longitude="@
            + c.lon_text@ + "&hourly=temperature_2m"@,
{
    let mut u: String = "https://api.open-meteo.com/v1/forecast?latitude=".to_owned();
    u.append(c.lat_text.as_str());
    u.append("&longitude=");
    u.append(c.lon_text.as_str());
    u.append("&hourly=temperature_2m");
    proof {
        assert(u@ =~= "https://api.open-meteo.com/v1/forecast?latitude="@ + c.lat_text@
            + "&longitude="@ + c.lon_text@ + "&hourly=temperature_2m"@);
    }
    u
}

/// A temperature reading the average can hold: at most six fractional
/// digits and a magnitude below `10^11` scaled units, so that a sum of
/// 24 readings stays within machine range. Anything outside is treated
/// as a malformed reading.
pub open spec fn temp_ok(d: Decimal) -> bool {
    d.scale <= 6 && d.mantissa <= 100000000000
}

/// A reading brought to the common denominator `10^6`.
pub open spec fn temp_scaled(d: Decimal) -> int {
    d.num() * pow10((6 - d.scale) as nat)
}

/// Sum of a series of readings over the common denominator `10^6`.
pub open spec fn sum_scaled(s: Seq<Decimal>) -> int
    decreases s.len(),
{
    if s.len() == 0 {
        0
    } else {
        sum_scaled(s.drop_last()) + temp_scaled(s.last())
    }
}

/// One element of the hourly series: a number whose literal parses and
/// whose size a 24-sample sum can carry.
pub open spec fn spec_temp(e: Json) -> Result<Decimal, LookupError> {
    match e {
        Json::Num(lit) => match spec_parse_decimal(lit@) {
            Some(d) => if temp_ok(d) {
                Ok(d)
            } else {
                Err(LookupError::BadNumber)
            },
            None => Err(LookupError::BadNumber),
        },
        _ => Err(LookupError::MissingField),
    }
}

/// The readings of a series, or its first malformed element's error.
pub open spec fn spec_temps(items: Seq<Json>) -> Result<Seq<Decimal>, LookupError>
    decreases items.len(),
{
    if items.len() == 0 {
        Ok(Seq::empty())
    } else {
        match spec_temps(items.drop_last()) {
            Ok(pre) => match spec_temp(items.last()) {
                Ok(d) => Ok(pre.push(d)),
                Err(e) => Err(e),
            },
            Err(e) => Err(e),
        }
    }
}

pub proof fn lemma_temps_first_error(items: Seq<Json>, i: int)
    requires
        0 <= i < items.len(),
        spec_temps(items.subrange(0, i)) is Ok,
        spec_temp(items[i]) is Err,
    ensures
        spec_temps(items) == Err::<Seq<Decimal>, LookupError>(spec_temp(items[i]).unwrap_err()),
    decreases items.len(),
{
    let pre = items.drop_last();
    if i == items.len() - 1 {
        assert(items.subrange(0, i) =~= pre);
    } else {
        assert(pre.subrange(0, i) =~= items.subrange(0, i));
        assert(pre[i] == items[i]);
        lemma_temps_first_error(pre, i);
    }
}

/// What a forecast response body yields: the sum, over the common
/// denominator `10^6`, of the first 24 hourly readings; or the error —
/// invalid JSON, a missing series, a series shorter than 24 entries, or
/// a malformed reading among the first 24.
pub open spec fn spec_weather_response(oj: Option<Json>) -> Result<int, LookupError> {
    match oj {
        Some(j) => match json_get(j, "hourly"@) {
            Some(h) => match json_get(h, "temperature_2m"@) {
                Some(Json::Arr(items)) => if items@.len() < 24 {
                    Err(LookupError::ShortForecast)
                } else {
                    match spec_temps(items@.subrange(0, 24)) {
                        Ok(ds) => Ok(sum_scaled(ds)),
                        Err(e) => Err(e),
                    }
                },
                _ => Err(LookupError::MissingField),
            },
            None => Err(LookupError::MissingField),
        },
        None => Err(LookupError::BadJson),
    }
}

/// Coordinates with the arithmetic mean of the first 24 hourly
/// temperature readings, held as the exact fraction
/// `avg_num / avg_den` with `avg_den == 24 * 10^6`.
#[derive(Clone, Debug)]
pub struct WeatherData {
    pub latitude: Decimal,
    pub longitude: Decimal,
    pub avg_num: i64,
    pub avg_den: u64,
}

impl WeatherData {
    pub open spec fn wf(self) -> bool {
        &&& self.latitude.wf()
        &&& self.longitude.wf()
        &&& self.avg_den == 24000000u64
        &&& -2400000000000000000 <= self.avg_num <= 2400000000000000000
    }

    /// Whether the held average equals the decimal `d` exactly.
    pub fn avg_equals(&self, d: &Decimal) -> (r: bool)
        requires
            self.wf(),
            d.wf(),
        ensures
            r == rat_eq(self.avg_num as int, self.avg_den as int, d.num(), d.den()),
    {
        proof {
            lemma_pow10_18();
            lemma_pow10_mono(d.scale as nat, 18);
            lemma_pow10_pos(d.scale as nat);
        }
        let p: u64 = pow10_u64(d.scale);
        proof {
            assert((self.avg_num as int) * (p as int) <= 2400000000000000000int
                * 1000000000000000000int && (self.avg_num as int) * (p as int)
                >= -2400000000000000000int * 1000000000000000000int) by (nonlinear_arith)
                requires
                    -2400000000000000000 <= self.avg_num as int <= 2400000000000000000,
                    1 <= p as int <= 1000000000000000000,
            ;
            assert((d.mantissa as int) * (self.avg_den as int) <= 1000000000000000000int
                * 24000000int) by (nonlinear_arith)
                requires
                    0 <= d.mantissa as int <= 1000000000000000000,
                    self.avg_den as int == 24000000,
            ;
        }
        let lhs: i128 = (self.avg_num as i128) * (p as i128);
        let m: i128 = (d.mantissa as i128) * (self.avg_den as i128);
        let rhs: i128 = if d.neg {
            -m
        } else {
            m
        };
        proof {
            assert((-(d.mantissa as int)) * (self.avg_den as int) == -((d.mantissa as int)
                * (self.avg_den as int))) by (nonlinear_arith);
        }
        lhs == rhs
    }

    /// Reads the forecast endpoint's response body and reduces the
    /// first 24 hourly readings to their exact mean.
    pub fn new(coords: &Coordinates, body: &str) -> (r: Result<WeatherData, LookupError>)
        requires
            coords.wf(),
        ensures
            match spec_weather_response(json_of(body@)) {
                Ok(sum) => r matches Ok(w) && w.avg_num == sum && w.avg_den == 24000000u64
                    && w.latitude == coords.latitude && w.longitude == coords.longitude,
                Err(e) => r matches Err(e2) && e2 == e,
            },
            r matches Ok(w) ==> w.wf(),
    {
        let j: Json = match parse_json(body) {
            Some(j) => j,
            None => {
                return Err(LookupError::BadJson);
            },
        };
        let h: &Json = match j.get("hourly") {
            Some(h) => h,
            None => {
                return Err(LookupError::MissingField);
            },
        };
        let arr: &Vec<Json> = match h.get("temperature_2m") {
            Some(v) => match v {
                Json::Arr(items) => items,
                _ => {
                    return Err(LookupError::MissingField);
                },
            },
            None => {
                return Err(LookupError::MissingField);
            },
        };
        if arr.len() < 24 {
            return Err(LookupError::ShortForecast);
        }
        let ghost first24: Seq<Json> = arr@.subrange(0, 24);
        let mut sum: i64 = 0;
        let ghost mut ds: Seq<Decimal> = Seq::empty();
        let mut i: usize = 0;
        while i < 24
            invariant
                0 <= i <= 24,
                arr@.len() >= 24,
                first24 == arr@.subrange(0, 24),
                json_of(body@) == Some(j),
                json_get(j, "hourly"@) == Some(*h),
                json_get(*h, "temperature_2m"@) == Some(Json::Arr(*arr)),
                spec_temps(first24.subrange(0, i as int)) == Ok::<Seq<Decimal>, LookupError>(ds),
                ds.len() == i,
                sum == sum_scaled(ds),
                -100000000000000000 * (i as int) <= sum <= 100000000000000000 * (i as int),
            decreases 24 - i,
        {
            let ghost prefix = first24.subrange(0, i as int);
            let e: &Json = &arr[i];
            proof {
                assert(first24[i as int] == arr@[i as int]);
            }
            let d: Decimal = match e {
                Json::Num(lit) => match parse_decimal(lit.as_str()) {
                    Some(d) => d,
                    None => {
                        proof {
                            lemma_temps_first_error(first24, i as int);
                        }
                        return Err(LookupError::BadNumber);
                    },
                },
                _ => {
                    proof {
                        lemma_temps_first_error(first24, i as int);
                    }
                    return Err(LookupError::MissingField);
                },
            };
            if !(d.scale <= 6 && d.mantissa <= 100000000000) {
                proof {
                    lemma_temps_first_error(first24, i as int);
                }
                return Err(LookupError::BadNumber);
            }
            let p: u64 = pow10_u64(6 - d.scale);
            proof {
                lemma_pow10_mono((6 - d.scale) as nat, 6);
                reveal_with_fuel(pow10, 7);
                assert((d.mantissa as int) * (p as int) <= 100000000000000000int)
                    by (nonlinear_arith)
                    requires
                        0 <= d.mantissa as int <= 100000000000,
                        0 <= p as int <= 1000000,
                ;
                assert((-(d.mantissa as int)) * (p as int) == -((d.mantissa as int) * (p as int)))
                    by (nonlinear_arith);
            }
            let mag: u64 = d.mantissa * p;
            let term: i64 = if d.neg {
                -(mag as i64)
            } else {
                mag as i64
            };
            proof {
                assert(term == temp_scaled(d));
                assert(first24.subrange(0, i + 1).drop_last() =~= prefix);
                assert(first24.subrange(0, i + 1).last() == first24[i as int]);
                assert(ds.push(d).drop_last() =~= ds);
                assert(ds.push(d).last() == d);
            }
            sum = sum + term;
            proof {
                ds = ds.push(d);
            }
            i = i + 1;
        }
        proof {
            assert(first24.subrange(0, 24) =~= first24);
        }
        Ok(
            WeatherData {
                latitude: coords.latitude,
                longitude: coords.longitude,
                avg_num: sum,
                avg_den: 24000000,
            },
        )
    }
}

proof fn lemma_sum_constant(s: Seq<Decimal>, v: Decimal)
    requires
        forall|i: int| 0 <= i < s.len() ==> s[i] == v,
    ensures
        sum_scaled(s) == s.len() * temp_scaled(v),
    decreases s.len(),
{
    if s.len() > 0 {
        lemma_sum_constant(s.drop_last(), v);
        assert((s.len() - 1) * temp_scaled(v) + temp_scaled(v) == s.len() * temp_scaled(v))
            by (nonlinear_arith);
    }
}

/// A forecast whose first 24 readings all equal `v` averages to exactly
/// `v`.
pub proof fn lemma_avg_constant_series(temps: Seq<Decimal>, v: Decimal)
    requires
        temps.len() == 24,
        forall|i: int| 0 <= i < temps.len() ==> temps[i] == v,
        temp_ok(v),
    ensures
        rat_eq(sum_scaled(temps), 24000000, v.num(), v.den()),
{
    lemma_sum_constant(temps, v);
    let p6s = pow10((6 - v.scale) as nat);
    let ps = pow10(v.scale as nat);
    lemma_pow10_add((6 - v.scale) as nat, v.scale as nat);
    reveal_with_fuel(pow10, 7);
    assert(p6s * ps == 1000000);
    assert((24 * (v.num() * p6s)) * ps == v.num() * 24000000) by (nonlinear_arith)
        requires
            p6s * ps == 1000000,
    ;
}

} // verus!
