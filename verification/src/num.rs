use vstd::prelude::*;

verus! {

/// Powers of ten, the denominators of decimal literals.
pub open spec fn pow10(n: nat) -> int
    decreases n,
{
    if n == 0 {
        1
    } else {
        10 * pow10((n - 1) as nat)
    }
}

pub proof fn lemma_pow10_pos(n: nat)
    ensures
        pow10(n) >= 1,
    decreases n,
{
    if n > 0 {
        lemma_pow10_pos((n - 1) as nat);
    }
}

pub proof fn lemma_pow10_mono(a: nat, b: nat)
    requires
        a <= b,
    ensures
        pow10(a) <= pow10(b),
    decreases b,
{
    if a < b {
        lemma_pow10_mono(a, (b - 1) as nat);
        lemma_pow10_pos((b - 1) as nat);
    }
}

pub proof fn lemma_pow10_add(a: nat, b: nat)
    ensures
        pow10(a + b) == pow10(a) * pow10(b),
    decreases a,
{
    if a == 0 {
    } else {
        lemma_pow10_add((a - 1) as nat, b);
        assert(pow10(a + b) == 10 * pow10((a + b - 1) as nat));
        assert(10 * (pow10((a - 1) as nat) * pow10(b)) == (10 * pow10((a - 1) as nat)) * pow10(b))
            by (nonlinear_arith);
    }
}

pub proof fn lemma_pow10_18()
    ensures
        pow10(18) == 1000000000000000000,
{
    reveal_with_fuel(pow10, 19);
}

/// A decimal literal, held exactly: the value is
/// `(-1)^neg * mantissa / 10^scale`.
///
/// This is the model under every numeric field a provider returns:
/// scores, salaries, temperatures and coordinates all carry their JSON
/// literal in this form, with full precision.
#[derive(Clone, Copy, PartialEq, Eq, Structural, Debug)]
pub struct Decimal {
    pub neg: bool,
    pub mantissa: u64,
    pub scale: u32,
}

impl Decimal {
    /// Signed numerator of the value.
    pub open spec fn num(self) -> int {
        if self.neg {
            -(self.mantissa as int)
        } else {
            self.mantissa as int
        }
    }

    /// Denominator of the value, `10^scale`.
    pub open spec fn den(self) -> int {
        pow10(self.scale as nat)
    }

    /// Every decimal the parser hands out keeps within 18 digits.
    pub open spec fn wf(self) -> bool {
        self.mantissa < pow10(18) && self.scale <= 18
    }
}

/// Equality of two fractions `n1/d1` and `n2/d2` with positive
/// denominators, stated by cross-multiplication.
pub open spec fn rat_eq(n1: int, d1: int, n2: int, d2: int) -> bool {
    n1 * d2 == n2 * d1
}

/// `n1/d1 <= n2/d2` for positive denominators, by cross-multiplication.
pub open spec fn rat_le(n1: int, d1: int, n2: int, d2: int) -> bool {
    n1 * d2 <= n2 * d1
}

/// `10^n` as a machine word, for `n` up to 18.
pub fn pow10_u64(n: u32) -> (r: u64)
    requires
        n <= 18,
    ensures
        r == pow10(n as nat),
{
    proof {
        lemma_pow10_18();
    }
    let mut r: u64 = 1;
    let mut i: u32 = 0;
    while i < n
        invariant
            i <= n <= 18,
            r == pow10(i as nat),
            pow10(18) == 1000000000000000000,
        decreases n - i,
    {
        proof {
            lemma_pow10_mono((i + 1) as nat, 18);
            lemma_pow10_pos(i as nat);
        }
        r = r * 10;
        i = i + 1;
    }
    r
}

/// Whether the two decimals denote the same rational value.
pub fn dec_eq(a: &Decimal, b: &Decimal) -> (r: bool)
    requires
        a.wf(),
        b.wf(),
    ensures
        r == rat_eq(a.num(), a.den(), b.num(), b.den()),
{
    proof {
        lemma_pow10_18();
        lemma_pow10_mono(a.scale as nat, 18);
        lemma_pow10_mono(b.scale as nat, 18);
        lemma_pow10_pos(a.scale as nat);
        lemma_pow10_pos(b.scale as nat);
    }
    let da: u64 = pow10_u64(a.scale);
    let db: u64 = pow10_u64(b.scale);
    proof {
        assert((a.mantissa as int) * (db as int) <= 1000000000000000000int * 1000000000000000000int
            && (b.mantissa as int) * (da as int) <= 1000000000000000000int * 1000000000000000000int)
            by (nonlinear_arith)
            requires
                a.mantissa as int <= 1000000000000000000int,
                b.mantissa as int <= 1000000000000000000int,
                da as int <= 1000000000000000000int,
                db as int <= 1000000000000000000int,
                0 <= a.mantissa as int,
                0 <= b.mantissa as int,
                0 <= da as int,
                0 <= db as int,
        ;
    }
    let lhs: i128 = (a.mantissa as i128) * (db as i128);
    let rhs: i128 = (b.mantissa as i128) * (da as i128);
    let la: i128 = if a.neg { -lhs } else { lhs };
    let rb: i128 = if b.neg { -rhs } else { rhs };
    proof {
        assert((-(a.mantissa as int)) * (db as int) == -((a.mantissa as int) * (db as int)))
            by (nonlinear_arith);
        assert((-(b.mantissa as int)) * (da as int) == -((b.mantissa as int) * (da as int)))
            by (nonlinear_arith);
    }
    la == rb
}

/// A digit character, by code point.
pub open spec fn is_digit(c: char) -> bool {
    48 <= c as int && c as int <= 57
}

pub open spec fn digit_val(c: char) -> int {
    c as int - 48
}

pub open spec fn all_digits(s: Seq<char>) -> bool {
    forall|i: int| 0 <= i < s.len() ==> is_digit(#[trigger] s[i])
}

/// The integer a digit string denotes, most significant digit first.
pub open spec fn digits_val(s: Seq<char>) -> int
    decreases s.len(),
{
    if s.len() == 0 {
        0
    } else {
        digits_val(s.drop_last()) * 10 + digit_val(s.last())
    }
}

pub proof fn lemma_digits_val_bound(s: Seq<char>)
    requires
        all_digits(s),
    ensures
        0 <= digits_val(s) < pow10(s.len()),
    decreases s.len(),
{
    if s.len() > 0 {
        lemma_digits_val_bound(s.drop_last());
        assert(is_digit(s.last()));
        lemma_pow10_pos((s.len() - 1) as nat);
    }
}

/// Index of the first `.` in `s`, or `s.len()` where there is none.
pub open spec fn first_dot(s: Seq<char>) -> int
    decreases s.len(),
{
    if s.len() == 0 {
        0
    } else if s[0] == '.' {
        0
    } else {
        1 + first_dot(s.subrange(1, s.len() as int))
    }
}

pub proof fn lemma_first_dot_at(s: Seq<char>, i: int)
    requires
        0 <= i <= s.len(),
        forall|j: int| 0 <= j < i ==> #[trigger] s[j] != '.',
        i == s.len() || s[i] == '.',
    ensures
        first_dot(s) == i,
    decreases i,
{
    if i == 0 {
        if s.len() > 0 {
        }
    } else {
        let t = s.subrange(1, s.len() as int);
        assert(forall|j: int| 0 <= j < i - 1 ==> #[trigger] t[j] != '.');
        lemma_first_dot_at(t, i - 1);
    }
}

/// The grammar of decimal literals the pipeline accepts: an optional
/// minus sign, one or more integer digits, and optionally a dot followed
/// by one or more fractional digits, at most 18 digits in all. Exponent
/// notation is not part of the grammar.
pub open spec fn spec_parse_decimal(s: Seq<char>) -> Option<Decimal> {
    let neg = s.len() > 0 && s[0] == '-';
    let t = if neg {
        s.subrange(1, s.len() as int)
    } else {
        s
    };
    let k = first_dot(t);
    let ip = t.subrange(0, k);
    let fp = if k == t.len() {
        Seq::<char>::empty()
    } else {
        t.subrange(k + 1, t.len() as int)
    };
    if 1 <= ip.len() && all_digits(ip) && (k == t.len() || (1 <= fp.len() && all_digits(fp)))
        && ip.len() + fp.len() <= 18 {
        Some(
            Decimal {
                neg,
                mantissa: digits_val(ip + fp) as u64,
                scale: fp.len() as u32,
            },
        )
    } else {
        None
    }
}

/// Reads a decimal literal. Returns `None` exactly where the literal is
/// outside the accepted grammar.
pub fn parse_decimal(s: &str) -> (r: Option<Decimal>)
    ensures
        r == spec_parse_decimal(s@),
        r is Some ==> r.unwrap().wf(),
{
    proof {
        lemma_pow10_18();
    }
    let n: usize = s.unicode_len();
    let neg: bool = n > 0 && s.get_char(0) == '-';
    let start: usize = if neg {
        1
    } else {
        0
    };
    let ghost t: Seq<char> = if neg {
        s@.subrange(1, n as int)
    } else {
        s@
    };
    proof {
        assert(t.len() == n - start);
        assert(forall|j: int| 0 <= j < t.len() ==> t[j] == s@[j + start]);
    }
    // find the first dot
    let mut k: usize = start;
    while k < n && s.get_char(k) != '.'
        invariant
            start <= k <= n,
            n == s@.len(),
            neg == (s@.len() > 0 && s@[0] == '-'),
            start == if neg { 1int } else { 0int },
            t == (if neg { s@.subrange(1, s@.len() as int) } else { s@ }),
            t.len() == n - start,
            forall|j: int| 0 <= j < t.len() ==> t[j] == s@[j + start],
            forall|j: int| start <= j < k ==> #[trigger] s@[j] != '.',
        decreases n - k,
    {
        k = k + 1;
    }
    proof {
        assert(forall|j: int| 0 <= j < k - start ==> #[trigger] t[j] != '.');
        if k < n {
            assert(t[k - start] == s@[k as int]);
        }
        lemma_first_dot_at(t, k - start);
    }
    let ghost kk: int = k - start;
    let ghost ip: Seq<char> = t.subrange(0, kk);
    let ghost fp: Seq<char> = if kk == t.len() {
        Seq::<char>::empty()
    } else {
        t.subrange(kk + 1, t.len() as int)
    };
    if k == start {
        // no integer digits
        return None;
    }
    let frac_len: usize = if k < n {
        n - k - 1
    } else {
        0
    };
    if k < n && frac_len == 0 {
        // a trailing dot with no fractional digits
        return None;
    }
    let int_len: usize = k - start;
    if int_len + frac_len > 18 {
        return None;
    }
    proof {
        assert(ip.len() == int_len);
        assert(fp.len() == frac_len);
    }
    // accumulate the integer digits
    let mut acc: u64 = 0;
    let mut i: usize = start;
    while i < k
        invariant
            start <= i <= k <= n,
            start < k,
            n == s@.len(),
            neg == (s@.len() > 0 && s@[0] == '-'),
            start == if neg { 1int } else { 0int },
            t == (if neg { s@.subrange(1, s@.len() as int) } else { s@ }),
            t.len() == n - start,
            forall|j: int| 0 <= j < t.len() ==> t[j] == s@[j + start],
            kk == k - start,
            first_dot(t) == kk,
            ip == t.subrange(0, kk),
            fp == (if kk == t.len() { Seq::<char>::empty() } else { t.subrange(kk + 1, t.len() as int) }),
            ip.len() == k - start,
            fp.len() == frac_len,
            k < n ==> 1 <= fp.len(),
            ip.len() + fp.len() <= 18,
            all_digits(ip.subrange(0, i - start)),
            acc == digits_val(ip.subrange(0, i - start)),
            acc < pow10((i - start) as nat),
            pow10(18) == 1000000000000000000,
        decreases k - i,
    {
        let c: char = s.get_char(i);
        let u: u32 = c as u32;
        proof {
            assert(ip[i - start] == t[i - start]);
            assert(ip[i - start] == s@[i as int]);
        }
        if u < 48 || u > 57 {
            proof {
                assert(!is_digit(ip[i - start]));
                assert(!all_digits(ip));
            }
            return None;
        }
        let d: u64 = (u - 48) as u64;
        let ghost pre: Seq<char> = ip.subrange(0, i - start);
        proof {
            assert(is_digit(ip[i - start]));
            assert(ip.subrange(0, i - start + 1) =~= pre.push(s@[i as int]));
            assert(pre.push(s@[i as int]).drop_last() =~= pre);
            lemma_pow10_mono((i - start + 1) as nat, 18);
        }
        acc = acc * 10 + d;
        i = i + 1;
    }
    proof {
        assert(ip.subrange(0, k - start) =~= ip);
    }
    // accumulate the fractional digits
    let mut j: usize = if k < n {
        k + 1
    } else {
        n
    };
    let ghost fstart: int = j as int;
    while j < n
        invariant
            fstart <= j <= n,
            start < k <= n,
            fstart == (if k < n { k + 1int } else { n as int }),
            n == s@.len(),
            neg == (s@.len() > 0 && s@[0] == '-'),
            start == if neg { 1int } else { 0int },
            t == (if neg { s@.subrange(1, s@.len() as int) } else { s@ }),
            t.len() == n - start,
            forall|jj: int| 0 <= jj < t.len() ==> t[jj] == s@[jj + start],
            kk == k - start,
            first_dot(t) == kk,
            ip == t.subrange(0, kk),
            fp == (if kk == t.len() { Seq::<char>::empty() } else { t.subrange(kk + 1, t.len() as int) }),
            ip.len() == k - start,
            1 <= ip.len(),
            fp.len() == n - fstart,
            fp.len() == frac_len,
            k < n ==> 1 <= fp.len(),
            forall|jj: int| 0 <= jj < fp.len() ==> fp[jj] == s@[jj + fstart],
            all_digits(ip),
            all_digits(fp.subrange(0, j - fstart)),
            ip.len() + fp.len() <= 18,
            acc == digits_val(ip + fp.subrange(0, j - fstart)),
            acc < pow10((ip.len() + j - fstart) as nat),
            pow10(18) == 1000000000000000000,
        decreases n - j,
    {
        let c: char = s.get_char(j);
        let u: u32 = c as u32;
        proof {
            assert(fp[j - fstart] == s@[j as int]);
        }
        if u < 48 || u > 57 {
            proof {
                assert(!is_digit(fp[j - fstart]));
                assert(!all_digits(fp));
                assert(kk < t.len());
            }
            return None;
        }
        let d: u64 = (u - 48) as u64;
        let ghost pre: Seq<char> = fp.subrange(0, j - fstart);
        proof {
            assert(is_digit(fp[j - fstart]));
            assert(fp.subrange(0, j - fstart + 1) =~= pre.push(s@[j as int]));
            assert((ip + pre.push(s@[j as int])).drop_last() =~= ip + pre);
            assert((ip + pre.push(s@[j as int])).last() == s@[j as int]);
            lemma_pow10_mono((ip.len() + j - fstart + 1) as nat, 18);
        }
        acc = acc * 10 + d;
        j = j + 1;
    }
    proof {
        assert(fp.subrange(0, n - fstart) =~= fp);
        lemma_digits_val_bound(ip + fp);
        lemma_pow10_mono((ip.len() + fp.len()) as nat, 18);
        if k < n {
            assert(kk < t.len());
        } else {
            assert(kk == t.len());
        }
    }
    let r = Decimal { neg, mantissa: acc, scale: frac_len as u32 };
    proof {
        assert(spec_parse_decimal(s@) == Some(r));
        assert(r.wf());
    }
    Some(r)
}

} // verus!
