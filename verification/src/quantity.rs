//! Human-readable quantities in the configuration: durations such as
//! `7d`, `5m`, `1.5h` and sizes such as `8GB`, `512k`.
//!
//! A quantity is a decimal number (digits with at most one `.`) followed by
//! an optional unit. Its value is the number times the unit, rounded to the
//! nearest integer with halves rounded up, and saturated at `u64::MAX`.

use vstd::prelude::*;
use vstd::arithmetic::power::{pow, lemma_pow_positive, lemma_pow_adds, lemma_pow1};
use vstd::arithmetic::div_mod::{lemma_fundamental_div_mod, lemma_fundamental_div_mod_converse, lemma_div_denominator};
use crate::text::{
    all_digits, append_str, chars_of, digit_val, digits_value, first_index_from, is_digit,
    lemma_digits_value_nonneg, lemma_first_index_from, lemma_digits_value_prefix, lower_seq,
    parse_digits_u64, range_eq_str, string_from_range, string_of, to_lower_chars, to_upper_chars,
    trim_bounds, trim_seq, upper_seq, char_is_digit, is_space, is_ascii_upper, lemma_padded_decimal,
    padded_decimal, skip_spaces_from, trimmed_end,
};

verus! {

/// Which kind of quantity is read: it decides the case folding, the units
/// and the wording of errors.
#[derive(Clone, Copy, PartialEq, Eq, Debug)]
pub enum Quantity {
    /// Bytes: `B`, `KB`, `MB`, `GB`, `TB` (powers of 1024), upper-cased.
    Size,
    /// Seconds: `s`, `m`, `h`, `d` and their spelled-out forms, lower-cased.
    Duration,
}

pub open spec fn pow10(n: nat) -> int {
    pow(10, n)
}

/// `mant * mul / 10^scale`, rounded to the nearest integer, halves up.
pub open spec fn round_scaled(mant: int, scale: nat, mul: int) -> int {
    (2 * mant * mul + pow10(scale)) / (2 * pow10(scale))
}

pub open spec fn is_num_char(c: char) -> bool {
    is_digit(c) || c == '.'
}

/// Index of the first character at or after `i` that is neither a digit
/// nor a `.`, or the length.
pub open spec fn num_end(t: Seq<char>, i: int) -> int
    decreases t.len() - i,
{
    if i < 0 || i >= t.len() {
        t.len() as int
    } else if is_num_char(t[i]) {
        num_end(t, i + 1)
    } else {
        i
    }
}

/// A run of digits and dots that reads as a number: at most one dot and
/// at least one digit.
pub open spec fn number_ok(np: Seq<char>) -> bool {
    let k = first_index_from(np, '.', 0);
    if k < 0 {
        np.len() > 0
    } else {
        first_index_from(np, '.', k + 1) < 0 && (k > 0 || k + 1 < np.len())
    }
}

pub open spec fn int_part(np: Seq<char>) -> Seq<char> {
    let k = first_index_from(np, '.', 0);
    if k < 0 {
        np
    } else {
        np.subrange(0, k)
    }
}

pub open spec fn frac_part(np: Seq<char>) -> Seq<char> {
    let k = first_index_from(np, '.', 0);
    if k < 0 {
        Seq::empty()
    } else {
        np.subrange(k + 1, np.len() as int)
    }
}

/// The value of the number `np` times `mul`, rounded, saturated at `u64::MAX`.
pub open spec fn scaled_amount(np: Seq<char>, mul: int) -> int {
    let r = round_scaled(
        digits_value(int_part(np) + frac_part(np)),
        frac_part(np).len(),
        mul,
    );
    if r > u64::MAX {
        u64::MAX as int
    } else {
        r
    }
}

pub open spec fn case_fold(k: Quantity, s: Seq<char>) -> Seq<char> {
    match k {
        Quantity::Size => upper_seq(s),
        Quantity::Duration => lower_seq(s),
    }
}

pub open spec fn unit_multiplier(k: Quantity, u: Seq<char>) -> Option<int> {
    match k {
        Quantity::Size => {
            if u == ""@ || u == "B"@ {
                Some(1int)
            } else if u == "K"@ || u == "KB"@ {
                Some(1024)
            } else if u == "M"@ || u == "MB"@ {
                Some(1024 * 1024int)
            } else if u == "G"@ || u == "GB"@ {
                Some(1024 * 1024 * 1024int)
            } else if u == "T"@ || u == "TB"@ {
                Some(1024 * 1024 * 1024 * 1024int)
            } else {
                None
            }
        },
        Quantity::Duration => {
            if u == ""@ || u == "s"@ || u == "sec"@ || u == "secs"@ || u == "second"@ || u
                == "seconds"@ {
                Some(1)
            } else if u == "m"@ || u == "min"@ || u == "mins"@ || u == "minute"@ || u
                == "minutes"@ {
                Some(60)
            } else if u == "h"@ || u == "hr"@ || u == "hrs"@ || u == "hour"@ || u == "hours"@ {
                Some(3600)
            } else if u == "d"@ || u == "day"@ || u == "days"@ {
                Some(86400)
            } else {
                None
            }
        },
    }
}

pub open spec fn kind_word(k: Quantity) -> Seq<char> {
    match k {
        Quantity::Size => "size"@,
        Quantity::Duration => "duration"@,
    }
}

pub open spec fn unit_hint(k: Quantity) -> Seq<char> {
    match k {
        Quantity::Size => "B/KB/MB/GB/TB"@,
        Quantity::Duration => "s/m/h/d"@,
    }
}

pub open spec fn empty_message(k: Quantity) -> Seq<char> {
    "empty "@ + kind_word(k) + " value"@
}

pub open spec fn missing_number_message(k: Quantity, raw: Seq<char>) -> Seq<char> {
    "invalid "@ + kind_word(k) + " '"@ + raw + "': missing number"@
}

pub open spec fn bad_number_message(k: Quantity, raw: Seq<char>) -> Seq<char> {
    "invalid "@ + kind_word(k) + " '"@ + raw + "': invalid float literal"@
}

pub open spec fn bad_unit_message(k: Quantity, unit: Seq<char>, raw: Seq<char>) -> Seq<char> {
    "invalid "@ + kind_word(k) + " unit '"@ + unit + "' in '"@ + raw + "', use "@ + unit_hint(k)
}

/// What reading `raw` as a quantity of kind `k` gives.
pub open spec fn quantity_outcome(k: Quantity, raw: Seq<char>) -> Result<int, Seq<char>> {
    let t = case_fold(k, trim_seq(raw));
    let e = num_end(t, 0);
    let np = t.subrange(0, e);
    let unit = trim_seq(t.subrange(e, t.len() as int));
    if t.len() == 0 {
        Err(empty_message(k))
    } else if e == 0 {
        Err(missing_number_message(k, raw))
    } else if !number_ok(np) {
        Err(bad_number_message(k, raw))
    } else {
        match unit_multiplier(k, unit) {
            None => Err(bad_unit_message(k, unit, raw)),
            Some(mul) => Ok(scaled_amount(np, mul)),
        }
    }
}

pub open spec fn outcome_matches(r: Result<u64, String>, o: Result<int, Seq<char>>) -> bool {
    match r {
        Ok(n) => o == Ok::<int, Seq<char>>(n as int),
        Err(e) => o == Err::<int, Seq<char>>(e@),
    }
}

proof fn lemma_num_end_digits(t: Seq<char>, n: int, i: int)
    requires
        0 <= i <= n < t.len(),
        forall|k: int| 0 <= k < n ==> is_digit(#[trigger] t[k]),
        !is_num_char(t[n]),
    ensures
        num_end(t, i) == n,
    decreases n - i,
{
    if i < n {
        assert(is_digit(t[i]));
        lemma_num_end_digits(t, n, i + 1);
    }
}

/// A whole number written in decimal with a one-letter duration unit,
/// such as `12h`, reads as that many units, saturated at `u64::MAX`.
pub proof fn lemma_whole_duration(n: nat, unit: char, mul: int)
    requires
        unit == 'h' && mul == 3600 || unit == 's' && mul == 1,
    ensures
        quantity_outcome(Quantity::Duration, padded_decimal(n, 1).push(unit)) == Ok::<int, Seq<char>>(
            if n * mul > u64::MAX {
                u64::MAX as int
            } else {
                n * mul
            },
        ),
{
    let d = padded_decimal(n, 1);
    lemma_padded_decimal(n, 1);
    assert(d.len() >= 1);
    let raw = d.push(unit);
    assert forall|k: int| 0 <= k < raw.len() implies !is_space(#[trigger] raw[k]) && !is_ascii_upper(
        raw[k],
    ) by {
        if k < d.len() {
            assert(raw[k] == d[k]);
            assert(is_digit(d[k]));
        }
    }
    assert(skip_spaces_from(raw, 0) == 0);
    assert(trimmed_end(raw, raw.len() as int) == raw.len());
    assert(trim_seq(raw) =~= raw);
    assert(lower_seq(raw) =~= raw);
    let t = case_fold(Quantity::Duration, trim_seq(raw));
    assert(t == raw);
    assert forall|k: int| 0 <= k < d.len() implies is_digit(#[trigger] t[k]) by {
        assert(t[k] == d[k]);
    }
    lemma_num_end_digits(t, d.len() as int, 0);
    assert(t.subrange(0, d.len() as int) =~= d);
    assert(t.subrange(d.len() as int, t.len() as int) =~= seq![unit]);
    assert(trim_seq(seq![unit]) =~= seq![unit]) by {
        assert(skip_spaces_from(seq![unit], 0) == 0);
        assert(trimmed_end(seq![unit], 1) == 1);
    }
    lemma_first_index_from(d, '.', 0);
    if first_index_from(d, '.', 0) >= 0 {
        assert(is_digit(d[first_index_from(d, '.', 0)]));
    }
    assert(int_part(d) == d);
    assert(frac_part(d) =~= Seq::<char>::empty());
    assert(d + frac_part(d) =~= d);
    reveal_strlit("");
    reveal_strlit("s");
    reveal_strlit("sec");
    reveal_strlit("secs");
    reveal_strlit("second");
    reveal_strlit("seconds");
    reveal_strlit("m");
    reveal_strlit("min");
    reveal_strlit("mins");
    reveal_strlit("minute");
    reveal_strlit("minutes");
    reveal_strlit("h");
    if unit == 'h' {
        assert(seq![unit] =~= "h"@);
        assert(seq![unit] != "s"@ && seq![unit] != "m"@) by {
            assert("s"@[0] == 's');
            assert("m"@[0] == 'm');
        }
    } else {
        assert(seq![unit] =~= "s"@);
    }
    assert(unit_multiplier(Quantity::Duration, seq![unit]) == Some(mul));
    assert(pow10(0) == 1) by {
        reveal(pow);
    }
    assert(round_scaled(n as int, 0, mul) == n * mul) by {
        assert((2 * n * mul + 1) / 2 == n * mul) by (nonlinear_arith)
            requires
                n >= 0,
                mul >= 1,
        ;
    }
}

// ---------------------------------------------------------------------------
// Arithmetic facts
// ---------------------------------------------------------------------------

/// The value of two concatenated digit strings.
pub proof fn lemma_digits_value_concat(a: Seq<char>, b: Seq<char>)
    ensures
        digits_value(a + b) == digits_value(a) * pow10(b.len()) + digits_value(b),
    decreases b.len(),
{
    if b.len() == 0 {
        assert(a + b =~= a);
        lemma_pow0_10();
    } else {
        let b0 = b.drop_last();
        assert((a + b).drop_last() =~= a + b0);
        assert((a + b).last() == b.last());
        lemma_digits_value_concat(a, b0);
        lemma_pow_adds(10, b0.len(), 1);
        lemma_pow1(10);
        assert(pow10(b.len()) == pow10(b0.len()) * 10);
        let da = digits_value(a);
        let p = pow10(b0.len());
        assert((da * p + digits_value(b0)) * 10 + digit_val(b.last()) == da * (p * 10) + (
        digits_value(b0) * 10 + digit_val(b.last()))) by (nonlinear_arith);
    }
}

proof fn lemma_pow0_10()
    ensures
        pow10(0) == 1,
{
    reveal(pow);
}

/// `(n + d) / 2d == (n / d + 1) / 2`.
pub proof fn lemma_half_round(n: int, d: int)
    requires
        n >= 0,
        d > 0,
    ensures
        (n + d) / (2 * d) == (n / d + 1) / 2,
{
    lemma_fundamental_div_mod(n, d);
    let q = n / d;
    let r = n % d;
    let t = (q + 1) / 2;
    let s = (q + 1) % 2;
    lemma_fundamental_div_mod(q + 1, 2);
    assert(n + d == t * (2 * d) + (s * d + r)) by (nonlinear_arith)
        requires
            n == d * q + r,
            q + 1 == 2 * t + s,
    ;
    assert(0 <= s * d + r < 2 * d) by (nonlinear_arith)
        requires
            0 <= s <= 1,
            0 <= r < d,
    ;
    lemma_fundamental_div_mod_converse(n + d, 2 * d, t, s * d + r);
}

/// Right-to-left long multiplication of a fraction's digits by `m`:
/// `floor(m * 0.d0 d1 ... dk)`.
pub open spec fn frac_carry(ds: Seq<char>, m: int) -> int
    decreases ds.len(),
{
    if ds.len() == 0 {
        0
    } else {
        (digit_val(ds[0]) * m + frac_carry(ds.drop_first(), m)) / 10
    }
}

proof fn lemma_all_digits_drop_first(ds: Seq<char>)
    requires
        all_digits(ds),
        ds.len() > 0,
    ensures
        all_digits(ds.drop_first()),
        is_digit(ds[0]),
{
    assert forall|i: int| 0 <= i < ds.drop_first().len() implies is_digit(
        #[trigger] ds.drop_first()[i],
    ) by {
        assert(ds.drop_first()[i] == ds[i + 1]);
    }
}

pub proof fn lemma_frac_carry(ds: Seq<char>, m: int)
    requires
        all_digits(ds),
        m >= 0,
    ensures
        frac_carry(ds, m) == (m * digits_value(ds)) / pow10(ds.len()),
        0 <= frac_carry(ds, m) <= m,
    decreases ds.len(),
{
    if ds.len() == 0 {
        lemma_pow0_10();
    } else {
        let rest = ds.drop_first();
        lemma_all_digits_drop_first(ds);
        lemma_frac_carry(rest, m);
        lemma_digits_value_concat(seq![ds[0]], rest);
        assert(seq![ds[0]] + rest =~= ds);
        assert(seq![ds[0]].drop_last() =~= Seq::<char>::empty());
        assert(digits_value(Seq::<char>::empty()) == 0);
        assert(seq![ds[0]].last() == ds[0]);
        assert(digits_value(seq![ds[0]]) == digit_val(ds[0]));
        let p = pow10(rest.len());
        lemma_pow_positive(10, rest.len());
        lemma_pow_adds(10, 1, rest.len());
        lemma_pow1(10);
        assert(pow10(ds.len()) == 10 * p);
        let d0 = digit_val(ds[0]);
        let x = m * digits_value(rest);
        lemma_digits_value_nonneg(rest);
        assert(x >= 0) by (nonlinear_arith)
            requires
                x == m * digits_value(rest),
                m >= 0,
                digits_value(rest) >= 0,
        ;
        assert(m * digits_value(ds) == (m * d0) * p + x) by (nonlinear_arith)
            requires
                digits_value(ds) == d0 * p + digits_value(rest),
                x == m * digits_value(rest),
        ;
        assert(m * d0 >= 0) by (nonlinear_arith)
            requires
                m >= 0,
                0 <= d0,
        ;
        // (a*p + x) / (p * 10) == ((a*p + x) / p) / 10 == (a + x / p) / 10
        lemma_div_denominator((m * d0) * p + x, p, 10);
        lemma_fundamental_div_mod(x, p);
        let qx = x / p;
        let rx = x % p;
        assert((m * d0) * p + x == (m * d0 + qx) * p + rx) by (nonlinear_arith)
            requires
                x == p * qx + rx,
        ;
        lemma_fundamental_div_mod_converse((m * d0) * p + x, p, m * d0 + qx, rx);
        assert(p * 10 == 10 * p) by (nonlinear_arith);
        // bound
        assert(d0 * m + frac_carry(rest, m) <= 10 * m) by (nonlinear_arith)
            requires
                0 <= d0 <= 9,
                frac_carry(rest, m) <= m,
                m >= 0,
        ;
        assert((d0 * m + frac_carry(rest, m)) / 10 <= m) by (nonlinear_arith)
            requires
                d0 * m + frac_carry(rest, m) <= 10 * m,
                0 <= d0 * m + frac_carry(rest, m),
        ;
        assert(d0 * m == m * d0) by (nonlinear_arith);
    }
}

/// The rounded product splits into the integer part times `mul` and the
/// rounded fraction.
pub proof fn lemma_round_scaled_split(ip: Seq<char>, fp: Seq<char>, mul: int)
    requires
        all_digits(ip),
        all_digits(fp),
        mul >= 1,
    ensures
        round_scaled(digits_value(ip + fp), fp.len(), mul) == digits_value(ip) * mul + (
        frac_carry(fp, 2 * mul) + 1) / 2,
        0 <= (frac_carry(fp, 2 * mul) + 1) / 2 <= mul,
{
    let p = pow10(fp.len());
    lemma_pow_positive(10, fp.len());
    lemma_digits_value_concat(ip, fp);
    lemma_digits_value_nonneg(ip);
    lemma_digits_value_nonneg(fp);
    lemma_frac_carry(fp, 2 * mul);
    let iv = digits_value(ip);
    let fv = digits_value(fp);
    let n = 2 * fv * mul;
    assert(n >= 0) by (nonlinear_arith)
        requires
            n == 2 * fv * mul,
            fv >= 0,
            mul >= 1,
    ;
    // 2 * mant * mul + p == (iv * mul) * (2p) + (n + p)
    assert(2 * (iv * p + fv) * mul + p == (iv * mul) * (2 * p) + (n + p)) by (nonlinear_arith)
        requires
            n == 2 * fv * mul,
    ;
    lemma_fundamental_div_mod(n + p, 2 * p);
    let qq = (n + p) / (2 * p);
    let rr = (n + p) % (2 * p);
    assert((iv * mul) * (2 * p) + (n + p) == (iv * mul + qq) * (2 * p) + rr) by (nonlinear_arith)
        requires
            n + p == (2 * p) * qq + rr,
    ;
    lemma_fundamental_div_mod_converse(
        (iv * mul) * (2 * p) + (n + p),
        2 * p,
        iv * mul + qq,
        rr,
    );
    lemma_half_round(n, p);
    assert(2 * mul * fv == n) by (nonlinear_arith)
        requires
            n == 2 * fv * mul,
    ;
    assert(frac_carry(fp, 2 * mul) <= 2 * mul);
}

// ---------------------------------------------------------------------------
// Executable reading
// ---------------------------------------------------------------------------

/// `floor(m * 0.F)` for the fraction digits `v[from..to]`.
fn frac_carry_exec(v: &Vec<char>, from: usize, to: usize, m: u64) -> (r: u64)
    requires
        from <= to <= v.len(),
        all_digits(v@.subrange(from as int, to as int)),
        m <= 0x40_0000_0000_00,
    ensures
        r == frac_carry(v@.subrange(from as int, to as int), m as int),
{
    let mut r: u64 = 0;
    let mut j = to;
    proof {
        assert(v@.subrange(to as int, to as int) =~= Seq::<char>::empty());
    }
    while j > from
        invariant
            from <= j <= to <= v.len(),
            all_digits(v@.subrange(from as int, to as int)),
            m <= 0x40_0000_0000_00,
            r == frac_carry(v@.subrange(j as int, to as int), m as int),
            r <= m,
        decreases j,
    {
        let ghost tail = v@.subrange(j - 1, to as int);
        proof {
            assert(tail.drop_first() =~= v@.subrange(j as int, to as int));
            assert(tail[0] == v@[j - 1]);
            assert(v@.subrange(from as int, to as int)[j - 1 - from] == v@[j - 1]);
            assert(is_digit(v@[j - 1]));
        }
        let d = (v[j - 1] as u32 - 0x30) as u64;
        proof {
            assert(d * m + r <= 10 * m) by (nonlinear_arith)
                requires
                    d <= 9,
                    r <= m,
            ;
            assert(d * m <= 9 * 0x40_0000_0000_00) by (nonlinear_arith)
                requires
                    d <= 9,
                    m <= 0x40_0000_0000_00,
            ;
        }
        let ghost prev = r;
        r = (d * m + r) / 10;
        j -= 1;
        proof {
            assert(r <= m) by (nonlinear_arith)
                requires
                    r == (d * m + prev) / 10,
                    d * m + prev <= 10 * m,
            ;
            assert(digit_val(tail[0]) == d);
        }
    }
    r
}

/// The value of the number `v[from..to]` (digits and at most one dot, at
/// least one digit) times `mul`, rounded and saturated.
fn scale_number(v: &Vec<char>, from: usize, to: usize, mul: u64) -> (r: u64)
    requires
        from <= to <= v.len(),
        forall|i: int| from <= i < to ==> is_num_char(#[trigger] v@[i]),
        number_ok(v@.subrange(from as int, to as int)),
        1 <= mul <= 0x200_0000_0000,
    ensures
        r == scaled_amount(v@.subrange(from as int, to as int), mul as int),
{
    let ghost np = v@.subrange(from as int, to as int);
    proof {
        lemma_first_index_from(np, '.', 0);
    }
    // locate the dot, if any
    let mut k = from;
    while k < to && v[k] != '.'
        invariant
            from <= k <= to <= v.len(),
            np == v@.subrange(from as int, to as int),
            forall|i: int| from <= i < k ==> v@[i] != '.',
        decreases to - k,
    {
        k += 1;
    }
    let (ifrom, ito, ffrom, fto) = if k < to {
        (from, k, k + 1, to)
    } else {
        (from, to, to, to)
    };
    let ghost ip = v@.subrange(ifrom as int, ito as int);
    let ghost fp = v@.subrange(ffrom as int, fto as int);
    proof {
        if k < to {
            assert(np[k - from] == '.');
            assert forall|i: int| 0 <= i < k - from implies np[i] != '.' by {
                assert(np[i] == v@[from + i]);
            }
            assert(first_index_from(np, '.', 0) == k - from) by {
                lemma_first_index_from(np, '.', 0);
                let f = first_index_from(np, '.', 0);
                if f == -1 {
                    assert(np[k - from] != '.');
                } else if f < k - from {
                    assert(np[f] != '.');
                } else if f > k - from {
                    assert(np[k - from] != '.');
                }
            }
            assert(int_part(np) =~= ip);
            assert(frac_part(np) =~= fp);
            lemma_first_index_from(np, '.', k - from + 1);
        } else {
            assert forall|i: int| 0 <= i < np.len() implies np[i] != '.' by {
                assert(np[i] == v@[from + i]);
            }
            assert(first_index_from(np, '.', 0) == -1) by {
                lemma_first_index_from(np, '.', 0);
                let f = first_index_from(np, '.', 0);
                if f != -1 {
                    assert(np[f] != '.');
                }
            }
            assert(int_part(np) =~= ip);
            assert(frac_part(np) =~= fp);
        }
        // both parts are digit strings
        assert forall|i: int| 0 <= i < ip.len() implies is_digit(#[trigger] ip[i]) by {
            assert(ip[i] == v@[ifrom + i]);
            assert(is_num_char(v@[ifrom + i]));
            assert(v@[ifrom + i] != '.');
        }
        assert forall|i: int| 0 <= i < fp.len() implies is_digit(#[trigger] fp[i]) by {
            assert(fp[i] == v@[ffrom + i]);
            assert(is_num_char(v@[ffrom + i]));
            if v@[ffrom + i] == '.' {
                // a second dot contradicts `number_ok`
                assert(np[ffrom + i - from] == '.');
                lemma_first_index_from(np, '.', k - from + 1);
            }
        }
        lemma_round_scaled_split(ip, fp, mul as int);
    }
    let carry = frac_carry_exec(v, ffrom, fto, 2 * mul);
    let rf = (carry + 1) / 2;
    proof {
        assert(rf <= mul);
    }
    match parse_digits_u64(v, ifrom, ito) {
        None => {
            proof {
                lemma_digits_value_nonneg(fp);
                assert(digits_value(ip) * mul >= digits_value(ip)) by (nonlinear_arith)
                    requires
                        mul >= 1,
                        digits_value(ip) > 0,
                ;
            }
            u64::MAX
        },
        Some(iv) => {
            match iv.checked_mul(mul) {
                None => u64::MAX,
                Some(prod) => {
                    match prod.checked_add(rf) {
                        None => u64::MAX,
                        Some(total) => total,
                    }
                },
            }
        },
    }
}

pub open spec fn message_missing(k: Quantity, raw: Seq<char>) -> Seq<char> {
    missing_number_message(k, raw)
}

fn word_str(k: Quantity) -> (r: &'static str)
    ensures
        r@ == kind_word(k),
{
    match k {
        Quantity::Size => "size",
        Quantity::Duration => "duration",
    }
}

fn hint_str(k: Quantity) -> (r: &'static str)
    ensures
        r@ == unit_hint(k),
{
    match k {
        Quantity::Size => "B/KB/MB/GB/TB",
        Quantity::Duration => "s/m/h/d",
    }
}

/// `invalid <word> '<raw>'<tail>`
fn raw_message(k: Quantity, raw: &str, tail: &str) -> (r: String)
    ensures
        r@ == "invalid "@ + kind_word(k) + " '"@ + raw@ + tail@,
{
    let mut m = string_of("invalid ");
    append_str(&mut m, word_str(k));
    append_str(&mut m, " '");
    append_str(&mut m, raw);
    append_str(&mut m, tail);
    m
}

fn unit_of(k: Quantity, t: &Vec<char>, from: usize, to: usize) -> (r: Option<u64>)
    requires
        from <= to <= t.len(),
    ensures
        match r {
            Some(m) => unit_multiplier(k, t@.subrange(from as int, to as int)) == Some(m as int),
            None => unit_multiplier(k, t@.subrange(from as int, to as int)) is None,
        },
{
    match k {
        Quantity::Size => {
            if range_eq_str(t, from, to, "") || range_eq_str(t, from, to, "B") {
                Some(1)
            } else if range_eq_str(t, from, to, "K") || range_eq_str(t, from, to, "KB") {
                Some(1024)
            } else if range_eq_str(t, from, to, "M") || range_eq_str(t, from, to, "MB") {
                Some(1024 * 1024)
            } else if range_eq_str(t, from, to, "G") || range_eq_str(t, from, to, "GB") {
                Some(1024 * 1024 * 1024)
            } else if range_eq_str(t, from, to, "T") || range_eq_str(t, from, to, "TB") {
                Some(1024 * 1024 * 1024 * 1024)
            } else {
                None
            }
        },
        Quantity::Duration => {
            if range_eq_str(t, from, to, "") || range_eq_str(t, from, to, "s") || range_eq_str(
                t,
                from,
                to,
                "sec",
            ) || range_eq_str(t, from, to, "secs") || range_eq_str(t, from, to, "second")
                || range_eq_str(t, from, to, "seconds") {
                Some(1)
            } else if range_eq_str(t, from, to, "m") || range_eq_str(t, from, to, "min")
                || range_eq_str(t, from, to, "mins") || range_eq_str(t, from, to, "minute")
                || range_eq_str(t, from, to, "minutes") {
                Some(60)
            } else if range_eq_str(t, from, to, "h") || range_eq_str(t, from, to, "hr")
                || range_eq_str(t, from, to, "hrs") || range_eq_str(t, from, to, "hour")
                || range_eq_str(t, from, to, "hours") {
                Some(3600)
            } else if range_eq_str(t, from, to, "d") || range_eq_str(t, from, to, "day")
                || range_eq_str(t, from, to, "days") {
                Some(86400)
            } else {
                None
            }
        },
    }
}

fn sub_vec(v: &Vec<char>, from: usize, to: usize) -> (r: Vec<char>)
    requires
        from <= to <= v.len(),
    ensures
        r@ == v@.subrange(from as int, to as int),
{
    let mut r: Vec<char> = Vec::new();
    let mut i = from;
    while i < to
        invariant
            from <= i <= to <= v.len(),
            r@ == v@.subrange(from as int, i as int),
        decreases to - i,
    {
        r.push(v[i]);
        i += 1;
        proof {
            assert(r@ =~= v@.subrange(from as int, i as int));
        }
    }
    r
}

/// Reads `raw` as a quantity of kind `k`.
pub fn parse_quantity(k: Quantity, raw: &str) -> (r: Result<u64, String>)
    ensures
        outcome_matches(r, quantity_outcome(k, raw@)),
{
    let v = chars_of(raw);
    let (a, b) = trim_bounds(&v);
    let trimmed = sub_vec(&v, a, b);
    let t = match k {
        Quantity::Size => to_upper_chars(&trimmed),
        Quantity::Duration => to_lower_chars(&trimmed),
    };
    let ghost ts = case_fold(k, trim_seq(raw@));
    proof {
        assert(t@ == ts);
    }
    if t.len() == 0 {
        let mut m = string_of("empty ");
        append_str(&mut m, word_str(k));
        append_str(&mut m, " value");
        return Err(m);
    }
    // end of the number part
    let mut e: usize = 0;
    while e < t.len() && (char_is_digit(t[e]) || t[e] == '.')
        invariant
            e <= t.len(),
            num_end(t@, 0) == num_end(t@, e as int),
            forall|i: int| 0 <= i < e ==> is_num_char(#[trigger] t@[i]),
        decreases t.len() - e,
    {
        e += 1;
    }
    proof {
        assert(num_end(t@, 0) == e);
    }
    if e == 0 {
        return Err(raw_message(k, raw, "': missing number"));
    }
    let ok = number_text_ok(&t, e);
    if !ok {
        return Err(raw_message(k, raw, "': invalid float literal"));
    }
    let unit_all = sub_vec(&t, e, t.len());
    let (ua, ub) = trim_bounds(&unit_all);
    match unit_of(k, &unit_all, ua, ub) {
        None => {
            let mut m = string_of("invalid ");
            append_str(&mut m, word_str(k));
            append_str(&mut m, " unit '");
            let unit = string_from_range(&unit_all, ua, ub);
            append_str(&mut m, unit.as_str());
            append_str(&mut m, "' in '");
            append_str(&mut m, raw);
            append_str(&mut m, "', use ");
            append_str(&mut m, hint_str(k));
            Err(m)
        },
        Some(mul) => {
            proof {
                assert(t@.subrange(0, e as int) =~= t@.subrange(0, e as int));
            }
            Ok(scale_number(&t, 0, e, mul))
        },
    }
}

/// Whether `t[..e]` (digits and dots) has at most one dot and a digit.
fn number_text_ok(t: &Vec<char>, e: usize) -> (r: bool)
    requires
        e <= t.len(),
    ensures
        r == number_ok(t@.subrange(0, e as int)),
{
    let ghost np = t@.subrange(0, e as int);
    let mut first_dot: Option<usize> = None;
    let mut second_dot = false;
    let mut i: usize = 0;
    while i < e
        invariant
            i <= e <= t.len(),
            np == t@.subrange(0, e as int),
            match first_dot {
                None => !second_dot && forall|j: int| 0 <= j < i ==> np[j] != '.',
                Some(f) => f < i && np[f as int] == '.' && (forall|j: int|
                    0 <= j < f ==> np[j] != '.') && (second_dot <==> exists|j: int|
                    f < j < i && np[j] == '.'),
            },
        decreases e - i,
    {
        if t[i] == '.' {
            proof {
                assert(np[i as int] == '.');
            }
            match first_dot {
                None => {
                    first_dot = Some(i);
                },
                Some(f) => {
                    second_dot = true;
                },
            }
        }
        i += 1;
    }
    proof {
        lemma_first_index_from(np, '.', 0);
    }
    match first_dot {
        None => {
            proof {
                let f = first_index_from(np, '.', 0);
                if f != -1 {
                    assert(np[f] == '.');
                }
            }
            e > 0
        },
        Some(f) => {
            proof {
                let g = first_index_from(np, '.', 0);
                if g == -1 {
                    assert(np[f as int] != '.');
                } else if g < f {
                    assert(np[g] != '.');
                } else if g > f {
                    assert(np[f as int] != '.');
                }
                lemma_first_index_from(np, '.', f + 1);
                let h = first_index_from(np, '.', f + 1);
                if second_dot {
                    let j = choose|j: int| f < j < e && np[j] == '.';
                    if h == -1 {
                        assert(np[j] != '.');
                    }
                } else {
                    if h != -1 {
                        assert(np[h] == '.');
                    }
                }
            }
            !second_dot && (f > 0 || f + 1 < e)
        },
    }
}

} // verus!
