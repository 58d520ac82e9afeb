use vstd::prelude::*;

verus! {

/// The geocoding service writes latitude and longitude as decimal numerals:
/// an optional minus sign, integer digits, and optionally a point followed by
/// fraction digits. This module gives such a text its value in ten-millionths
/// of a degree, as an integer. Fraction digits beyond the seventh carry less
/// than the resolution and are cut off; a numeral with more than eleven
/// integer digits is rejected, so every accepted value fits in an `i64`.

/// ASCII codes of the bytes a numeral is written with.
pub const DIGIT_ZERO: u8 = 48;

pub const DIGIT_NINE: u8 = 57;

/// The decimal point.
pub const POINT: u8 = 46;

/// The minus sign.
pub const MINUS: u8 = 45;

/// How many integer digits a numeral may have.
pub const MAX_INTEGER_DIGITS: usize = 11;

/// Ten-millionths in one whole unit.
pub const E7: i64 = 10_000_000;

pub open spec fn is_ascii_digit(b: u8) -> bool {
    DIGIT_ZERO <= b && b <= DIGIT_NINE
}

pub open spec fn digit_value(b: u8) -> int {
    b as int - 48
}

pub open spec fn all_ascii_digits(s: Seq<u8>) -> bool {
    forall|j: int| 0 <= j < s.len() ==> is_ascii_digit(s[j])
}

/// The value of a run of digits read in the usual way, most significant first.
pub open spec fn digits_value(s: Seq<u8>) -> int
    decreases s.len(),
{
    if s.len() == 0 {
        0
    } else {
        digits_value(s.drop_last()) * 10 + digit_value(s.last())
    }
}

pub open spec fn pow10(n: nat) -> int
    decreases n,
{
    if n == 0 {
        1
    } else {
        10 * pow10((n - 1) as nat)
    }
}

/// The value of the digits written after the point, scaled to ten-millionths:
/// digits beyond the seventh are cut off, missing places count for zero.
pub open spec fn fraction_e7(s: Seq<u8>) -> int {
    if s.len() >= 7 {
        digits_value(s.take(7))
    } else {
        digits_value(s) * pow10((7 - s.len()) as nat)
    }
}

/// The index of the first decimal point in the text, if there is one.
pub open spec fn point_index(s: Seq<u8>) -> Option<int>
    decreases s.len(),
{
    if s.len() == 0 {
        None
    } else if s[0] == POINT {
        Some(0int)
    } else {
        match point_index(s.drop_first()) {
            None => None,
            Some(i) => Some(i + 1),
        }
    }
}

/// The value, in ten-millionths, of an unsigned decimal numeral: a run of one
/// to eleven integer digits, optionally followed by a point and at least one
/// fraction digit. Any other text has no value.
pub open spec fn unsigned_decimal_e7(s: Seq<u8>) -> Option<int> {
    match point_index(s) {
        None => {
            if 1 <= s.len() <= 11 && all_ascii_digits(s) {
                Some(digits_value(s) * 10_000_000)
            } else {
                None
            }
        }
        Some(p) => {
            let ip = s.take(p);
            let fp = s.skip(p + 1);
            if 1 <= ip.len() <= 11 && 1 <= fp.len() && all_ascii_digits(ip) && all_ascii_digits(
                fp,
            ) {
                Some(digits_value(ip) * 10_000_000 + fraction_e7(fp))
            } else {
                None
            }
        }
    }
}

/// The value, in ten-millionths, of a decimal numeral with an optional
/// leading minus sign.
pub open spec fn decimal_e7(s: Seq<u8>) -> Option<int> {
    if s.len() >= 1 && s[0] == MINUS {
        match unsigned_decimal_e7(s.drop_first()) {
            None => None,
            Some(v) => Some(-v),
        }
    } else {
        unsigned_decimal_e7(s)
    }
}

proof fn lemma_pow10_pos(n: nat)
    ensures
        pow10(n) >= 1,
    decreases n,
{
    if n > 0 {
        lemma_pow10_pos((n - 1) as nat);
    }
}

proof fn lemma_pow10_mono(a: nat, b: nat)
    requires
        a <= b,
    ensures
        pow10(a) <= pow10(b),
    decreases b,
{
    if a < b {
        lemma_pow10_mono(a, (b - 1) as nat);
        lemma_pow10_pos((b - 1) as nat);
    }
}

proof fn lemma_pow10_values()
    ensures
        pow10(0) == 1,
        pow10(1) == 10,
        pow10(6) == 1_000_000,
        pow10(7) == 10_000_000,
        pow10(10) == 10_000_000_000,
        pow10(11) == 100_000_000_000,
{
    assert(pow10(0) == 1);
    assert(pow10(1) == 10);
    assert(pow10(2) == 100);
    assert(pow10(3) == 1_000);
    assert(pow10(4) == 10_000);
    assert(pow10(5) == 100_000);
    assert(pow10(6) == 1_000_000);
    assert(pow10(7) == 10_000_000);
    assert(pow10(8) == 100_000_000);
    assert(pow10(9) == 1_000_000_000);
    assert(pow10(10) == 10_000_000_000);
    assert(pow10(11) == 100_000_000_000);
}

proof fn lemma_point_index_none(s: Seq<u8>)
    requires
        forall|j: int| 0 <= j < s.len() ==> s[j] != POINT,
    ensures
        point_index(s) is None,
    decreases s.len(),
{
    if s.len() > 0 {
        let t = s.drop_first();
        assert forall|j: int| 0 <= j < t.len() implies t[j] != POINT by {
            assert(t[j] == s[j + 1]);
        }
        lemma_point_index_none(t);
    }
}

proof fn lemma_point_index_at(s: Seq<u8>, p: int)
    requires
        0 <= p < s.len(),
        s[p] == POINT,
        forall|j: int| 0 <= j < p ==> s[j] != POINT,
    ensures
        point_index(s) == Some(p),
    decreases s.len(),
{
    if p > 0 {
        let t = s.drop_first();
        assert(t[p - 1] == s[p]);
        assert forall|j: int| 0 <= j < p - 1 implies t[j] != POINT by {
            assert(t[j] == s[j + 1]);
        }
        lemma_point_index_at(t, p - 1);
    }
}

/// Whether every byte of `u` between `from` and `to` is an ASCII digit.
fn all_digits_in(u: &[u8], from: usize, to: usize) -> (r: bool)
    requires
        from <= to <= u@.len(),
    ensures
        r == all_ascii_digits(u@.subrange(from as int, to as int)),
{
    let mut i: usize = from;
    while i < to
        invariant
            from <= i <= to <= u@.len(),
            forall|j: int| from <= j < i ==> is_ascii_digit(u@[j]),
        decreases to - i,
    {
        let b = u[i];
        if b < DIGIT_ZERO || b > DIGIT_NINE {
            proof {
                assert(u@.subrange(from as int, to as int)[i - from] == u@[i as int]);
            }
            return false;
        }
        i = i + 1;
    }
    proof {
        let sub = u@.subrange(from as int, to as int);
        assert forall|j: int| 0 <= j < sub.len() implies is_ascii_digit(sub[j]) by {
            assert(sub[j] == u@[from + j]);
        }
    }
    true
}

/// Reads the run of digits between `from` and `to` and returns its value,
/// or nothing where some byte there is not a digit.
fn digits_run_value(u: &[u8], from: usize, to: usize) -> (r: Option<i64>)
    requires
        from <= to <= u@.len(),
        to - from <= 11,
    ensures
        match r {
            Some(v) => {
                &&& all_ascii_digits(u@.subrange(from as int, to as int))
                &&& v as int == digits_value(u@.subrange(from as int, to as int))
                &&& 0 <= v
                &&& (v as int) < pow10((to - from) as nat)
            },
            None => !all_ascii_digits(u@.subrange(from as int, to as int)),
        },
{
    let mut acc: i64 = 0;
    let mut i: usize = from;
    proof {
        lemma_pow10_values();
    }
    while i < to
        invariant
            from <= i <= to <= u@.len(),
            to - from <= 11,
            all_ascii_digits(u@.subrange(from as int, i as int)),
            acc as int == digits_value(u@.subrange(from as int, i as int)),
            0 <= acc,
            (acc as int) < pow10((i - from) as nat),
            pow10(10) == 10_000_000_000,
        decreases to - i,
    {
        let b = u[i];
        if b < DIGIT_ZERO || b > DIGIT_NINE {
            proof {
                assert(u@.subrange(from as int, to as int)[i - from] == u@[i as int]);
            }
            return None;
        }
        proof {
            lemma_pow10_mono((i - from) as nat, 10);
            lemma_pow10_values();
            let pre = u@.subrange(from as int, i as int);
            let post = u@.subrange(from as int, (i + 1) as int);
            assert(post.drop_last() =~= pre);
            assert(post.last() == u@[i as int]);
            assert forall|j: int| 0 <= j < post.len() implies is_ascii_digit(post[j]) by {
                assert(post[j] == u@[from + j]);
            }
            assert(pow10((i + 1 - from) as nat) == 10 * pow10((i - from) as nat));
        }
        acc = acc * 10 + ((b - DIGIT_ZERO) as i64);
        i = i + 1;
    }
    Some(acc)
}

/// The value of an unsigned decimal numeral, in ten-millionths.
fn parse_unsigned_e7(u: &[u8]) -> (r: Option<i64>)
    ensures
        match r {
            Some(v) => unsigned_decimal_e7(u@) == Some(v as int) && 0 <= v,
            None => unsigned_decimal_e7(u@) is None,
        },
{
    let n: usize = u.len();
    let mut p: usize = 0;
    while p < n && u[p] != POINT
        invariant
            n == u@.len(),
            p <= n,
            forall|j: int| 0 <= j < p ==> u@[j] != POINT,
        decreases n - p,
    {
        p = p + 1;
    }
    if p == n {
        // no point: the whole text is the integer part
        proof {
            lemma_point_index_none(u@);
            assert(u@.subrange(0, n as int) =~= u@);
        }
        if n < 1 || n > MAX_INTEGER_DIGITS {
            return None;
        }
        match digits_run_value(u, 0, n) {
            None => None,
            Some(v) => {
                proof {
                    lemma_pow10_values();
                    lemma_pow10_mono(n as nat, 11);
                }
                Some(v * E7)
            }
        }
    } else {
        // u[p] is the first point; integer part before it, fraction after it
        proof {
            lemma_point_index_at(u@, p as int);
            assert(u@.take(p as int) =~= u@.subrange(0, p as int));
            assert(u@.skip(p as int + 1) =~= u@.subrange(p as int + 1, n as int));
        }
        if p < 1 || p > MAX_INTEGER_DIGITS || p + 1 == n {
            return None;
        }
        if !all_digits_in(u, p + 1, n) {
            return None;
        }
        let ip_v: i64 = match digits_run_value(u, 0, p) {
            None => {
                return None;
            },
            Some(v) => v,
        };
        let flen: usize = n - (p + 1);
        let take: usize = if flen >= 7 {
            7
        } else {
            flen
        };
        proof {
            let whole = u@.subrange(p as int + 1, n as int);
            let head = u@.subrange(p as int + 1, (p + 1 + take) as int);
            assert forall|j: int| 0 <= j < head.len() implies is_ascii_digit(head[j]) by {
                assert(head[j] == u@[p + 1 + j]);
                assert(whole[j] == u@[p + 1 + j]);
            }
        }
        let mut fv: i64 = match digits_run_value(u, p + 1, p + 1 + take) {
            None => {
                // every fraction byte was already checked to be a digit
                proof {
                    assert(false);
                }
                return None;
            },
            Some(v) => v,
        };
        proof {
            lemma_pow10_values();
        }
        let ghost fseq = u@.subrange(p as int + 1, (p + 1 + take) as int);
        let mut k: usize = take;
        while k < 7
            invariant
                take <= k <= 7,
                0 <= fv,
                fv as int == digits_value(fseq) * pow10((k - take) as nat),
                (fv as int) < pow10(k as nat),
            decreases 7 - k,
        {
            proof {
                lemma_pow10_values();
                lemma_pow10_mono(k as nat, 6);
                assert(pow10((k + 1) as nat) == 10 * pow10(k as nat));
                assert(pow10((k + 1 - take) as nat) == 10 * pow10((k - take) as nat));
                assert(digits_value(fseq) * (10 * pow10((k - take) as nat)) == (digits_value(fseq)
                    * pow10((k - take) as nat)) * 10) by (nonlinear_arith);
            }
            fv = fv * 10;
            k = k + 1;
        }
        proof {
            lemma_pow10_values();
            lemma_pow10_mono(p as nat, 11);
            let fp = u@.skip(p as int + 1);
            if flen >= 7 {
                assert(fp.take(7) =~= u@.subrange(p as int + 1, (p + 1 + take) as int));
            }
        }
        Some(ip_v * E7 + fv)
    }
}

/// The value of a decimal numeral with an optional minus sign, in
/// ten-millionths, or nothing where the text is not such a numeral.
pub fn parse_decimal_e7(s: &[u8]) -> (r: Option<i64>)
    ensures
        match r {
            Some(v) => decimal_e7(s@) == Some(v as int),
            None => decimal_e7(s@) is None,
        },
{
    let n: usize = s.len();
    if n >= 1 && s[0] == MINUS {
        let rest: &[u8] = &s[1..n];
        proof {
            assert(rest@ =~= s@.drop_first());
        }
        match parse_unsigned_e7(rest) {
            None => None,
            Some(v) => Some(-v),
        }
    } else {
        parse_unsigned_e7(s)
    }
}

} // verus!
