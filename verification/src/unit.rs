//! The closed set of measurement units and their textual synonyms.

use vstd::prelude::*;
use crate::num::{Decimal, pow10, pow10_u64, round_div, clamp_i32};

verus! {

/// A measurement unit for one side of an image.
///
/// `Pixels` is the implicit unit of bare numbers; the others are physical
/// units that need a DPI value before they resolve to pixels.
#[derive(Debug, Clone, Copy, PartialEq, Eq, Structural)]
pub enum Unit {
    Inches,
    Centimeters,
    Feet,
    Millimeters,
    Meters,
    Pixels,
}

/// Why a token or a numeric string was rejected.
#[derive(Debug, Clone, Copy, PartialEq, Eq, Structural)]
pub enum DimensionError {
    /// The token is not in the fixed unit synonym table.
    UnrecognizedUnit,
    /// The string is not a plain numeric token, or its value is too large
    /// for the machine representation.
    MalformedNumber,
}

/// How many unit synonym tokens the grammar knows.
pub const UNIT_TOKEN_COUNT: usize = 17;

/// The synonym tokens, in matching order: within one unit the longer
/// synonyms come first, and `mm` comes before `m`, so that a first-match
/// scan never stops at a proper prefix of a longer synonym.
pub open spec fn unit_token(k: int) -> Seq<char> {
    if k == 0 {
        "pixels"@
    } else if k == 1 {
        "pixel"@
    } else if k == 2 {
        "px"@
    } else if k == 3 {
        "inches"@
    } else if k == 4 {
        "inch"@
    } else if k == 5 {
        "in"@
    } else if k == 6 {
        "centimeters"@
    } else if k == 7 {
        "centimeter"@
    } else if k == 8 {
        "cm"@
    } else if k == 9 {
        "millimeters"@
    } else if k == 10 {
        "millimeter"@
    } else if k == 11 {
        "mm"@
    } else if k == 12 {
        "meters"@
    } else if k == 13 {
        "meter"@
    } else if k == 14 {
        "m"@
    } else if k == 15 {
        "ft"@
    } else {
        "feet"@
    }
}

/// The unit that synonym token `k` denotes.
pub open spec fn token_unit(k: int) -> Unit {
    if 0 <= k <= 2 {
        Unit::Pixels
    } else if 3 <= k <= 5 {
        Unit::Inches
    } else if 6 <= k <= 8 {
        Unit::Centimeters
    } else if 9 <= k <= 11 {
        Unit::Millimeters
    } else if 12 <= k <= 14 {
        Unit::Meters
    } else {
        Unit::Feet
    }
}

/// What a whole string denotes as a unit: `Some` exactly on the synonym
/// table, `None` on everything else.
pub open spec fn unit_of_token(t: Seq<char>) -> Option<Unit> {
    if t == "pixels"@ || t == "pixel"@ || t == "px"@ {
        Some(Unit::Pixels)
    } else if t == "inches"@ || t == "inch"@ || t == "in"@ {
        Some(Unit::Inches)
    } else if t == "centimeters"@ || t == "centimeter"@ || t == "cm"@ {
        Some(Unit::Centimeters)
    } else if t == "millimeters"@ || t == "millimeter"@ || t == "mm"@ {
        Some(Unit::Millimeters)
    } else if t == "meters"@ || t == "meter"@ || t == "m"@ {
        Some(Unit::Meters)
    } else if t == "feet"@ || t == "ft"@ {
        Some(Unit::Feet)
    } else {
        None
    }
}

/// Every synonym of the table parses back to the unit it stands for:
/// matching a token during extraction and parsing it during
/// classification agree.
pub proof fn lemma_unit_token_in_table(k: int)
    requires
        0 <= k < UNIT_TOKEN_COUNT,
    ensures
        unit_of_token(unit_token(k)) == Some(token_unit(k)),
{
    reveal_strlit("pixels");
    reveal_strlit("pixel");
    reveal_strlit("px");
    reveal_strlit("inches");
    reveal_strlit("inch");
    reveal_strlit("in");
    reveal_strlit("centimeters");
    reveal_strlit("centimeter");
    reveal_strlit("cm");
    reveal_strlit("millimeters");
    reveal_strlit("millimeter");
    reveal_strlit("mm");
    reveal_strlit("meters");
    reveal_strlit("meter");
    reveal_strlit("m");
    reveal_strlit("ft");
    reveal_strlit("feet");
    // Every token differs from every other in its length or its first
    // character, so the lookup can only take the matching branch.
    assert("pixels"@.len() == 6 && "pixels"@[0] == 'p');
    assert("pixel"@.len() == 5 && "pixel"@[0] == 'p');
    assert("px"@.len() == 2 && "px"@[0] == 'p');
    assert("inches"@.len() == 6 && "inches"@[0] == 'i');
    assert("inch"@.len() == 4 && "inch"@[0] == 'i');
    assert("in"@.len() == 2 && "in"@[0] == 'i');
    assert("centimeters"@.len() == 11 && "centimeters"@[0] == 'c');
    assert("centimeter"@.len() == 10 && "centimeter"@[0] == 'c');
    assert("cm"@.len() == 2 && "cm"@[0] == 'c');
    assert("millimeters"@.len() == 11 && "millimeters"@[0] == 'm');
    assert("millimeter"@.len() == 10 && "millimeter"@[0] == 'm');
    assert("mm"@.len() == 2 && "mm"@[0] == 'm');
    assert("meters"@.len() == 6 && "meters"@[0] == 'm');
    assert("meter"@.len() == 5 && "meter"@[0] == 'm');
    assert("m"@.len() == 1 && "m"@[0] == 'm');
    assert("ft"@.len() == 2 && "ft"@[0] == 'f');
    assert("feet"@.len() == 4 && "feet"@[0] == 'f');
}

/// The synonym token `k`, as executable text.
pub fn unit_token_str(k: usize) -> (p: &'static str)
    requires
        k < UNIT_TOKEN_COUNT,
    ensures
        p@ == unit_token(k as int),
{
    if k == 0 {
        "pixels"
    } else if k == 1 {
        "pixel"
    } else if k == 2 {
        "px"
    } else if k == 3 {
        "inches"
    } else if k == 4 {
        "inch"
    } else if k == 5 {
        "in"
    } else if k == 6 {
        "centimeters"
    } else if k == 7 {
        "centimeter"
    } else if k == 8 {
        "cm"
    } else if k == 9 {
        "millimeters"
    } else if k == 10 {
        "millimeter"
    } else if k == 11 {
        "mm"
    } else if k == 12 {
        "meters"
    } else if k == 13 {
        "meter"
    } else if k == 14 {
        "m"
    } else if k == 15 {
        "ft"
    } else {
        "feet"
    }
}

/// The unit denoted by synonym token `k`, as an executable value.
pub fn token_unit_value(k: usize) -> (u: Unit)
    requires
        k < UNIT_TOKEN_COUNT,
    ensures
        u == token_unit(k as int),
{
    if k <= 2 {
        Unit::Pixels
    } else if k <= 5 {
        Unit::Inches
    } else if k <= 8 {
        Unit::Centimeters
    } else if k <= 11 {
        Unit::Millimeters
    } else if k <= 14 {
        Unit::Meters
    } else {
        Unit::Feet
    }
}

/// Character-for-character equality of two string slices.
fn str_eq(a: &str, b: &str) -> (r: bool)
    ensures
        r == (a@ == b@),
{
    let an = a.unicode_len();
    let bn = b.unicode_len();
    if an != bn {
        return false;
    }
    let mut i: usize = 0;
    while i < an
        invariant
            an == a@.len(),
            an == b@.len(),
            i <= an,
            forall|m: int| 0 <= m < i ==> a@[m] == b@[m],
        decreases an - i,
    {
        if a.get_char(i) != b.get_char(i) {
            return false;
        }
        i = i + 1;
    }
    proof {
        assert(a@ =~= b@);
    }
    true
}

/// Numerator of the linear factor taking an amount in `u` to inches.
///
/// An amount `a` in unit `u` is `a * unit_num(u) / unit_den(u)` inches:
/// inches stay as they are, feet are divided by 12, centimeters by 2.54,
/// millimeters by 25.4 and meters by 39.37.  Pixels carry no factor and
/// must never reach the conversion.
pub open spec fn unit_num(u: Unit) -> int {
    match u {
        Unit::Inches => 1,
        Unit::Feet => 1,
        Unit::Centimeters => 100,
        Unit::Millimeters => 10,
        Unit::Meters => 100,
        Unit::Pixels => 0,
    }
}

/// Denominator of the linear factor taking an amount in `u` to inches.
pub open spec fn unit_den(u: Unit) -> int {
    match u {
        Unit::Inches => 1,
        Unit::Feet => 12,
        Unit::Centimeters => 254,
        Unit::Millimeters => 254,
        Unit::Meters => 3937,
        Unit::Pixels => 1,
    }
}

/// An exact amount of inches, kept as a ratio of two integers.
#[derive(Debug, Clone, Copy, PartialEq, Eq, Structural)]
pub struct InchesRatio {
    pub num: u128,
    pub den: u128,
}

fn unit_num_val(unit: &Unit) -> (r: u32)
    ensures
        r == unit_num(*unit),
{
    match unit {
        Unit::Inches => 1,
        Unit::Feet => 1,
        Unit::Centimeters => 100,
        Unit::Millimeters => 10,
        Unit::Meters => 100,
        Unit::Pixels => 0,
    }
}

fn unit_den_val(unit: &Unit) -> (r: u32)
    ensures
        r == unit_den(*unit),
{
    match unit {
        Unit::Inches => 1,
        Unit::Feet => 12,
        Unit::Centimeters => 254,
        Unit::Millimeters => 254,
        Unit::Meters => 3937,
        Unit::Pixels => 1,
    }
}

/// Converts an exact decimal amount of a physical unit to inches.
///
/// The result is exact: `r.num / r.den` inches.  Calling this with
/// `Pixels` is a contract violation, so the precondition forbids it.
pub fn unit_to_inches(unit: &Unit, amount: &Decimal) -> (r: InchesRatio)
    requires
        *unit != Unit::Pixels,
        amount.wf(),
    ensures
        r.num == amount.mantissa * unit_num(*unit),
        r.den == pow10(amount.scale as nat) * unit_den(*unit),
        r.den >= 1,
{
    let nu = unit_num_val(unit);
    let de = unit_den_val(unit);
    let p = pow10_u64(amount.scale);
    proof {
        crate::num::lemma_pow10_pos(amount.scale as nat);
        assert(amount.mantissa * nu <= u64::MAX * 100) by (nonlinear_arith)
            requires
                amount.mantissa <= u64::MAX,
                nu <= 100,
        ;
        assert(p * de <= u64::MAX * 3937) by (nonlinear_arith)
            requires
                p <= u64::MAX,
                de <= 3937,
        ;
        assert(p * de >= 1) by (nonlinear_arith)
            requires
                p >= 1,
                de >= 1,
        ;
    }
    InchesRatio { num: (amount.mantissa as u128) * (nu as u128), den: (p as u128) * (de as u128) }
}

/// The pixel count of one side: the amount converted to inches, multiplied
/// by the DPI, rounded half away from zero.
pub open spec fn physical_pixels(mantissa: int, scale: nat, u: Unit, dpi: int) -> int
    recommends
        u != Unit::Pixels,
        mantissa >= 0,
{
    let a = if dpi >= 0 {
        dpi
    } else {
        -dpi
    };
    let p = mantissa * unit_num(u) * a;
    let q = pow10(scale) * unit_den(u);
    if dpi >= 0 {
        round_div(p, q)
    } else {
        -round_div(p, q)
    }
}

/// Resolves one physical side to a whole pixel count at the given DPI,
/// forced into the range of `i32`.
pub fn physical_to_pixels(amount: &Decimal, unit: &Unit, dpi: i32) -> (r: i32)
    requires
        *unit != Unit::Pixels,
        amount.wf(),
    ensures
        r == clamp_i32(physical_pixels(amount.mantissa as int, amount.scale as nat, *unit, dpi as int)),
{
    let f = unit_to_inches(unit, amount);
    let negative = dpi < 0;
    let dpi_abs: u32 = if dpi >= 0 {
        dpi as u32
    } else {
        (-(dpi as i64)) as u32
    };
    proof {
        assert(f.num * dpi_abs <= u64::MAX * 100 * u32::MAX) by (nonlinear_arith)
            requires
                f.num <= u64::MAX * 100,
                dpi_abs <= u32::MAX,
        ;
        crate::num::lemma_pow10_mono(amount.scale as nat, 19);
        reveal_with_fuel(pow10, 20);
        assert(pow10(19) == 10000000000000000000);
        assert(f.den <= u64::MAX * 3937) by (nonlinear_arith)
            requires
                f.den == pow10(amount.scale as nat) * unit_den(*unit),
                pow10(amount.scale as nat) <= 10000000000000000000,
                pow10(amount.scale as nat) >= 1,
                1 <= unit_den(*unit) <= 3937,
        ;
    }
    let p: u128 = f.num * (dpi_abs as u128);
    let q: u128 = f.den;
    let rounded: u128 = (2 * p + q) / (2 * q);
    proof {
        let ghost pi = p as int;
        let ghost qi = q as int;
        assert(rounded == round_div(pi, qi));
        assert(round_div(pi, qi) >= 0) by (nonlinear_arith)
            requires
                pi >= 0,
                qi >= 1,
        ;
        let m = amount.mantissa as int;
        let a = dpi_abs as int;
        assert(m * unit_num(*unit) * a == (m * unit_num(*unit)) * a);
        assert(pi == m * unit_num(*unit) * a);
    }
    if negative {
        if rounded >= 2147483648u128 {
            i32::MIN
        } else {
            -(rounded as i32)
        }
    } else {
        if rounded > i32::MAX as u128 {
            i32::MAX
        } else {
            rounded as i32
        }
    }
}

impl Unit {
    /// Parses one synonym token; rejects every string outside the table.
    pub fn parse(token: &str) -> (r: Result<Unit, DimensionError>)
        ensures
            r is Ok <==> unit_of_token(token@) is Some,
            r is Ok ==> Some(r->Ok_0) == unit_of_token(token@),
            r is Err ==> r->Err_0 == DimensionError::UnrecognizedUnit,
    {
        if str_eq(token, "pixels") || str_eq(token, "pixel") || str_eq(token, "px") {
            Ok(Unit::Pixels)
        } else if str_eq(token, "inches") || str_eq(token, "inch") || str_eq(token, "in") {
            Ok(Unit::Inches)
        } else if str_eq(token, "centimeters") || str_eq(token, "centimeter") || str_eq(token, "cm") {
            Ok(Unit::Centimeters)
        } else if str_eq(token, "millimeters") || str_eq(token, "millimeter") || str_eq(token, "mm") {
            Ok(Unit::Millimeters)
        } else if str_eq(token, "meters") || str_eq(token, "meter") || str_eq(token, "m") {
            Ok(Unit::Meters)
        } else if str_eq(token, "feet") || str_eq(token, "ft") {
            Ok(Unit::Feet)
        } else {
            Err(DimensionError::UnrecognizedUnit)
        }
    }
}

} // verus!
