//! Numeric tokens: digit strings, exact decimal values, and rounding.
//!
//! A numeric token is one or more digits, optionally followed by a decimal
//! point and one or more digits.  Its value is kept exactly, as an integer
//! mantissa scaled by a power of ten, so that later unit conversion and
//! rounding can be specified without floating point.

use vstd::prelude::*;
use crate::unit::DimensionError;

verus! {

/// Is `c` an ASCII digit?
pub open spec fn is_digit(c: char) -> bool {
    48 <= c as u32 <= 57
}

/// The value of one ASCII digit.
pub open spec fn digit_val(c: char) -> int {
    c as u32 - 48
}

/// Does every character of `s` satisfy `is_digit`?
pub open spec fn all_digits(s: Seq<char>) -> bool {
    forall|k: int| 0 <= k < s.len() ==> is_digit(s[k])
}

/// A non-empty run of digits.
pub open spec fn is_int_token(s: Seq<char>) -> bool {
    s.len() > 0 && all_digits(s)
}

/// The number denoted by a digit string, most significant digit first.
pub open spec fn digits_val(s: Seq<char>) -> int
    decreases s.len(),
{
    if s.len() == 0 {
        0
    } else {
        10 * digits_val(s.drop_last()) + digit_val(s.last())
    }
}

/// The position of the first `.` in `s` at or after `i`, if any.
pub open spec fn find_dot(s: Seq<char>, i: int) -> Option<int>
    decreases s.len() - i,
{
    if i < 0 || i >= s.len() {
        None
    } else if s[i] == '.' {
        Some(i)
    } else {
        find_dot(s, i + 1)
    }
}

/// The position of the first `.` in `s`, if any.
pub open spec fn dot_index(s: Seq<char>) -> Option<int> {
    find_dot(s, 0)
}

/// A numeric token: digits, or digits `.` digits.
pub open spec fn is_num_token(s: Seq<char>) -> bool {
    match dot_index(s) {
        None => is_int_token(s),
        Some(i) => is_int_token(s.subrange(0, i)) && is_int_token(
            s.subrange(i + 1, s.len() as int),
        ),
    }
}

/// The token's digits read as one integer, the decimal point dropped.
pub open spec fn num_mantissa(s: Seq<char>) -> int {
    match dot_index(s) {
        None => digits_val(s),
        Some(i) => digits_val(s.subrange(0, i) + s.subrange(i + 1, s.len() as int)),
    }
}

/// How many digits follow the decimal point.
pub open spec fn num_scale(s: Seq<char>) -> nat {
    match dot_index(s) {
        None => 0,
        Some(i) => (s.len() - i - 1) as nat,
    }
}

/// Ten to the power `e`.
pub open spec fn pow10(e: nat) -> int
    decreases e,
{
    if e == 0 {
        1
    } else {
        10 * pow10((e - 1) as nat)
    }
}

/// The largest scale a [`Decimal`] may carry.
pub const MAX_DECIMAL_SCALE: u32 = 19;

/// An exact non-negative decimal number: `mantissa / 10^scale`.
///
/// The representation is as written in the source text: `"2.67"` becomes
/// mantissa 267 with scale 2, and `"5"` mantissa 5 with scale 0.
#[derive(Debug, Clone, Copy, PartialEq, Eq, Structural)]
pub struct Decimal {
    pub mantissa: u64,
    pub scale: u32,
}

impl Decimal {
    /// The scale is small enough that `10^scale` fits comfortably in
    /// machine arithmetic.
    pub open spec fn wf(self) -> bool {
        self.scale <= MAX_DECIMAL_SCALE
    }
}

/// `n / d` rounded half away from zero, for non-negative `n` and positive `d`.
pub open spec fn round_div(n: int, d: int) -> int
    recommends
        n >= 0,
        d > 0,
{
    (2 * n + d) / (2 * d)
}

/// `x` forced into the range of `i32`.
pub open spec fn clamp_i32(x: int) -> int {
    if x > i32::MAX {
        i32::MAX as int
    } else if x < i32::MIN {
        i32::MIN as int
    } else {
        x
    }
}

/// Every digit of a digit string contributes non-negatively.
pub proof fn lemma_digits_val_nonneg(s: Seq<char>)
    requires
        all_digits(s),
    ensures
        digits_val(s) >= 0,
    decreases s.len(),
{
    if s.len() > 0 {
        assert(all_digits(s.drop_last()));
        lemma_digits_val_nonneg(s.drop_last());
    }
}

/// Reading more digits never shrinks the value.
pub proof fn lemma_digits_prefix_le(s: Seq<char>, j: int)
    requires
        all_digits(s),
        0 <= j <= s.len(),
    ensures
        digits_val(s.subrange(0, j)) <= digits_val(s),
    decreases s.len() - j,
{
    if j == s.len() {
        assert(s.subrange(0, j) =~= s);
    } else {
        assert(s.subrange(0, j + 1).drop_last() =~= s.subrange(0, j));
        assert(s.subrange(0, j + 1).last() == s[j]);
        assert(all_digits(s.subrange(0, j)));
        lemma_digits_val_nonneg(s.subrange(0, j));
        assert(digits_val(s.subrange(0, j + 1)) == 10 * digits_val(s.subrange(0, j)) + digit_val(
            s[j],
        ));
        lemma_digits_prefix_le(s, j + 1);
    }
}

/// Concatenating digit strings multiplies the left value by `10^len` of the
/// right and adds the right value.
pub proof fn lemma_digits_concat(a: Seq<char>, b: Seq<char>)
    ensures
        digits_val(a + b) == digits_val(a) * pow10(b.len()) + digits_val(b),
    decreases b.len(),
{
    if b.len() == 0 {
        assert(a + b =~= a);
    } else {
        lemma_digits_concat(a, b.drop_last());
        assert((a + b).drop_last() =~= a + b.drop_last());
        assert((a + b).last() == b.last());
        assert(digits_val(a + b) == 10 * digits_val(a + b.drop_last()) + digit_val(b.last()));
        assert(10 * (digits_val(a) * pow10(b.drop_last().len()) + digits_val(b.drop_last()))
            == digits_val(a) * (10 * pow10(b.drop_last().len())) + 10 * digits_val(b.drop_last()))
            by (nonlinear_arith);
        assert(10 * pow10(b.drop_last().len()) == pow10(b.len()));
    }
}

/// `10^e` is positive.
pub proof fn lemma_pow10_pos(e: nat)
    ensures
        pow10(e) >= 1,
    decreases e,
{
    if e > 0 {
        lemma_pow10_pos((e - 1) as nat);
    }
}

/// `10^e` grows with `e`.
pub proof fn lemma_pow10_mono(a: nat, b: nat)
    requires
        a <= b,
    ensures
        pow10(a) <= pow10(b),
    decreases b,
{
    if a < b {
        lemma_pow10_mono(a, (b - 1) as nat);
        lemma_pow10_pos((b - 1) as nat);
    }
}

/// Ten to the power `e`, executably.
pub fn pow10_u64(e: u32) -> (r: u64)
    requires
        e <= MAX_DECIMAL_SCALE,
    ensures
        r == pow10(e as nat),
{
    proof {
        reveal_with_fuel(pow10, 20);
        assert(pow10(19) == 10000000000000000000);
    }
    let mut acc: u64 = 1;
    let mut i: u32 = 0;
    while i < e
        invariant
            i <= e <= 19,
            acc == pow10(i as nat),
            pow10(19) == 10000000000000000000,
        decreases e - i,
    {
        proof {
            lemma_pow10_mono((i + 1) as nat, 19);
            lemma_pow10_pos(i as nat);
        }
        acc = acc * 10;
        i = i + 1;
    }
    acc
}

/// The character of one decimal digit.
pub open spec fn digit_char(d: int) -> char {
    if d == 0 {
        '0'
    } else if d == 1 {
        '1'
    } else if d == 2 {
        '2'
    } else if d == 3 {
        '3'
    } else if d == 4 {
        '4'
    } else if d == 5 {
        '5'
    } else if d == 6 {
        '6'
    } else if d == 7 {
        '7'
    } else if d == 8 {
        '8'
    } else {
        '9'
    }
}

/// The decimal representation of a non-negative number, most significant
/// digit first and without leading zeros.
pub open spec fn dec_rep(n: int) -> Seq<char>
    recommends
        n >= 0,
    decreases n,
{
    if n < 10 {
        seq![digit_char(n)]
    } else {
        dec_rep(n / 10).push(digit_char(n % 10))
    }
}

/// The decimal representation of an integer: a minus sign and the
/// magnitude, or just the magnitude.
pub open spec fn int_rep(v: int) -> Seq<char> {
    if v < 0 {
        seq!['-'] + dec_rep(-v)
    } else {
        dec_rep(v)
    }
}

fn digit_str(d: u32) -> (r: &'static str)
    requires
        d < 10,
    ensures
        r@ =~= seq![digit_char(d as int)],
{
    proof {
        reveal_strlit("0");
        reveal_strlit("1");
        reveal_strlit("2");
        reveal_strlit("3");
        reveal_strlit("4");
        reveal_strlit("5");
        reveal_strlit("6");
        reveal_strlit("7");
        reveal_strlit("8");
        reveal_strlit("9");
    }
    if d == 0 {
        "0"
    } else if d == 1 {
        "1"
    } else if d == 2 {
        "2"
    } else if d == 3 {
        "3"
    } else if d == 4 {
        "4"
    } else if d == 5 {
        "5"
    } else if d == 6 {
        "6"
    } else if d == 7 {
        "7"
    } else if d == 8 {
        "8"
    } else {
        "9"
    }
}

fn u32_dec(n: u32) -> (r: String)
    ensures
        r@ == dec_rep(n as int),
    decreases n,
{
    if n < 10 {
        String::from_str(digit_str(n))
    } else {
        let mut s = u32_dec(n / 10);
        s.append(digit_str(n % 10));
        proof {
            assert(dec_rep((n / 10) as int) + seq![digit_char((n % 10) as int)] =~= dec_rep(
                (n / 10) as int,
            ).push(digit_char((n % 10) as int)));
        }
        s
    }
}

/// Writes an integer in decimal, exactly as [`int_rep`] says.
pub fn i32_to_string(v: i32) -> (r: String)
    ensures
        r@ == int_rep(v as int),
{
    if v >= 0 {
        u32_dec(v as u32)
    } else {
        let m: u32 = (-(v as i64)) as u32;
        let mut s = String::from_str("-");
        let rest = u32_dec(m);
        s.append(rest.as_str());
        proof {
            reveal_strlit("-");
            assert("-"@ =~= seq!['-']);
        }
        s
    }
}

/// Reads the digit run `s[lo..hi]` as a `u64`.
///
/// `None` exactly when some character in the range is not a digit or the
/// value does not fit in a `u64`; an empty range reads as zero.
fn parse_digits_u64(s: &str, lo: usize, hi: usize) -> (r: Option<u64>)
    requires
        lo <= hi <= s@.len(),
    ensures
        r is Some <==> all_digits(s@.subrange(lo as int, hi as int)) && digits_val(
            s@.subrange(lo as int, hi as int),
        ) <= u64::MAX,
        r is Some ==> r->0 == digits_val(s@.subrange(lo as int, hi as int)),
{
    let ghost whole = s@.subrange(lo as int, hi as int);
    let mut acc: u64 = 0;
    let mut j: usize = lo;
    while j < hi
        invariant
            lo <= j <= hi <= s@.len(),
            whole == s@.subrange(lo as int, hi as int),
            all_digits(s@.subrange(lo as int, j as int)),
            acc == digits_val(s@.subrange(lo as int, j as int)),
        decreases hi - j,
    {
        let ghost prefix = s@.subrange(lo as int, j as int);
        let c = s.get_char(j);
        let v = c as u32;
        proof {
            assert(s@.subrange(lo as int, j + 1).drop_last() =~= prefix);
            assert(s@.subrange(lo as int, j + 1).last() == s@[j as int]);
        }
        if v < 48 || v > 57 {
            proof {
                assert(!is_digit(whole[j - lo]));
            }
            return None;
        }
        let d = (v - 48) as u64;
        if acc > (u64::MAX - d) / 10 {
            proof {
                let ai = acc as int;
                let di = d as int;
                let m = u64::MAX as int;
                assert(ai > (m - di) / 10);
                assert(10 * ai + di > m) by (nonlinear_arith)
                    requires
                        ai > (m - di) / 10,
                        0 <= di <= 9,
                ;
                assert(digits_val(s@.subrange(lo as int, j + 1)) > u64::MAX);
                if all_digits(whole) {
                    assert(whole.subrange(0, j + 1 - lo) =~= s@.subrange(lo as int, j + 1));
                    lemma_digits_prefix_le(whole, j + 1 - lo);
                }
            }
            return None;
        }
        acc = acc * 10 + d;
        j = j + 1;
    }
    proof {
        assert(s@.subrange(lo as int, j as int) =~= whole);
    }
    Some(acc)
}

/// Reads a whole string as a non-negative `i32`.
///
/// Succeeds exactly on non-empty all-digit strings whose value is at most
/// `i32::MAX`; everything else is a [`DimensionError::MalformedNumber`].
pub fn parse_i32(s: &str) -> (r: Result<i32, DimensionError>)
    ensures
        r is Ok <==> is_int_token(s@) && digits_val(s@) <= i32::MAX,
        r is Ok ==> r->Ok_0 == digits_val(s@) && r->Ok_0 >= 0,
        r is Err ==> r->Err_0 == DimensionError::MalformedNumber,
{
    let n = s.unicode_len();
    if n == 0 {
        return Err(DimensionError::MalformedNumber);
    }
    proof {
        assert(s@.subrange(0, n as int) =~= s@);
    }
    match parse_digits_u64(s, 0, n) {
        None => Err(DimensionError::MalformedNumber),
        Some(v) => {
            if v > i32::MAX as u64 {
                Err(DimensionError::MalformedNumber)
            } else {
                Ok(v as i32)
            }
        },
    }
}

/// Finds the first `.` in `s`, if any.
pub fn find_dot_exec(s: &str) -> (r: Option<usize>)
    ensures
        match r {
            Some(i) => i < s@.len() && dot_index(s@) == Some(i as int),
            None => dot_index(s@) is None,
        },
{
    let n = s.unicode_len();
    let mut j: usize = 0;
    while j < n
        invariant
            j <= n == s@.len(),
            find_dot(s@, 0) == find_dot(s@, j as int),
        decreases n - j,
    {
        if s.get_char(j) == '.' {
            return Some(j);
        }
        j = j + 1;
    }
    None
}

/// Reads a whole string as an exact [`Decimal`].
///
/// Succeeds exactly on numeric tokens (digits, or digits `.` digits) whose
/// mantissa fits in a `u64` and whose fractional part has at most
/// [`MAX_DECIMAL_SCALE`] digits; everything else is a
/// [`DimensionError::MalformedNumber`].
pub fn parse_decimal(s: &str) -> (r: Result<Decimal, DimensionError>)
    ensures
        r is Ok <==> is_num_token(s@) && num_mantissa(s@) <= u64::MAX && num_scale(s@)
            <= MAX_DECIMAL_SCALE,
        r is Ok ==> r->Ok_0.mantissa == num_mantissa(s@) && r->Ok_0.scale == num_scale(s@)
            && r->Ok_0.wf(),
        r is Err ==> r->Err_0 == DimensionError::MalformedNumber,
{
    let n = s.unicode_len();
    match find_dot_exec(s) {
        None => {
            if n == 0 {
                return Err(DimensionError::MalformedNumber);
            }
            proof {
                assert(s@.subrange(0, n as int) =~= s@);
            }
            match parse_digits_u64(s, 0, n) {
                None => Err(DimensionError::MalformedNumber),
                Some(v) => Ok(Decimal { mantissa: v, scale: 0 }),
            }
        },
        Some(i) => {
            let ghost int_part = s@.subrange(0, i as int);
            let ghost frac_part = s@.subrange(i + 1, n as int);
            if i == 0 || i + 1 == n {
                return Err(DimensionError::MalformedNumber);
            }
            let scale_usize = n - i - 1;
            let int_v = match parse_digits_u64(s, 0, i) {
                None => {
                    proof {
                        if is_num_token(s@) {
                            lemma_digits_val_nonneg(frac_part);
                            lemma_pow10_pos(frac_part.len());
                            lemma_digits_concat(int_part, frac_part);
                            assert(digits_val(int_part) * pow10(frac_part.len()) >= digits_val(
                                int_part,
                            ) * 1) by (nonlinear_arith)
                                requires
                                    pow10(frac_part.len()) >= 1,
                                    digits_val(int_part) >= 0,
                            ;
                        }
                    }
                    return Err(DimensionError::MalformedNumber);
                },
                Some(v) => v,
            };
            let frac_v = match parse_digits_u64(s, i + 1, n) {
                None => {
                    proof {
                        if is_num_token(s@) {
                            lemma_digits_val_nonneg(int_part);
                            lemma_pow10_pos(frac_part.len());
                            lemma_digits_concat(int_part, frac_part);
                            assert(digits_val(int_part) * pow10(frac_part.len()) >= 0)
                                by (nonlinear_arith)
                                requires
                                    pow10(frac_part.len()) >= 1,
                                    digits_val(int_part) >= 0,
                            ;
                        }
                    }
                    return Err(DimensionError::MalformedNumber);
                },
                Some(v) => v,
            };
            if scale_usize > MAX_DECIMAL_SCALE as usize {
                return Err(DimensionError::MalformedNumber);
            }
            let scale = scale_usize as u32;
            let p = pow10_u64(scale);
            proof {
                lemma_digits_concat(int_part, frac_part);
                lemma_digits_val_nonneg(int_part);
                lemma_digits_val_nonneg(frac_part);
                lemma_pow10_pos(frac_part.len());
                lemma_pow10_pos(scale as nat);
            }
            if int_v > (u64::MAX - frac_v) / p {
                proof {
                    let iv = int_v as int;
                    let fv = frac_v as int;
                    let pi = p as int;
                    let m = u64::MAX as int;
                    assert(iv > (m - fv) / pi);
                    assert(iv * pi + fv > m) by (nonlinear_arith)
                        requires
                            iv > (m - fv) / pi,
                            pi > 0,
                            0 <= fv <= m,
                    ;
                }
                return Err(DimensionError::MalformedNumber);
            }
            proof {
                let iv = int_v as int;
                let fv = frac_v as int;
                let pi = p as int;
                let m = u64::MAX as int;
                assert(iv * pi + fv <= m) by (nonlinear_arith)
                    requires
                        iv <= (m - fv) / pi,
                        pi >= 1,
                        0 <= fv <= m,
                        iv >= 0,
                ;
            }
            let mantissa = int_v * p + frac_v;
            Ok(Decimal { mantissa, scale })
        },
    }
}

} // verus!
