//! Raw width/height extractions and their classification into scenarios.

use vstd::prelude::*;
use crate::num::{
    Decimal, digits_val, dot_index, is_int_token, is_num_token, num_mantissa, num_scale,
    parse_decimal, parse_i32, MAX_DECIMAL_SCALE,
};
use crate::unit::{DimensionError, Unit, unit_of_token};

pub use crate::extract::parse_resize_details;

verus! {

/// A fully resolved size with whole-number sides.
#[derive(Debug, Clone, Copy, PartialEq, Eq, Structural)]
pub struct DimensionsI32 {
    pub w: i32,
    pub h: i32,
    pub unit: Unit,
}

/// A fully resolved size whose sides are exact decimal numbers.
#[derive(Debug, Clone, Copy, PartialEq, Eq, Structural)]
pub struct DimensionsDecimal {
    pub w: Decimal,
    pub h: Decimal,
    pub unit: Unit,
}

/// One matched `width x height` phrase, before numbers and units are
/// interpreted.
///
/// `raw_inline_unit` is a unit token directly after the width number;
/// `raw_unit` one after the height number.  Both are optional and
/// independently present.
#[derive(Debug, Clone, PartialEq)]
pub struct RawResizeDetails {
    pub raw_width: String,
    pub raw_height: String,
    pub raw_inline_unit: Option<String>,
    pub raw_unit: Option<String>,
}

/// The mathematical shape of a [`RawResizeDetails`]: its fields as
/// character sequences.
pub struct RawView {
    pub width: Seq<char>,
    pub height: Seq<char>,
    pub inline_unit: Option<Seq<char>>,
    pub unit: Option<Seq<char>>,
}

impl View for RawResizeDetails {
    type V = RawView;

    open spec fn view(&self) -> RawView {
        RawView {
            width: self.raw_width@,
            height: self.raw_height@,
            inline_unit: match self.raw_inline_unit {
                Some(s) => Some(s@),
                None => None,
            },
            unit: match self.raw_unit {
                Some(s) => Some(s@),
                None => None,
            },
        }
    }
}

/// The resolved interpretation of one extraction: a pixel size, a physical
/// size, a unit conflict to clarify, or a fractional-pixel rejection.
#[derive(Debug, Clone, PartialEq)]
pub enum ResizeScenario {
    PhysicalResize(DimensionsDecimal),
    PixelResize(DimensionsI32),
    ClarifyUnit(RawResizeDetails),
    FractionalPixels(RawResizeDetails),
}

/// The mathematical shape of a [`ResizeScenario`].
pub enum ScenarioView {
    Physical { w: Decimal, h: Decimal, unit: Unit },
    Pixel { w: int, h: int, unit: Unit },
    Clarify(RawView),
    Fractional(RawView),
}

impl View for ResizeScenario {
    type V = ScenarioView;

    open spec fn view(&self) -> ScenarioView {
        match self {
            ResizeScenario::PhysicalResize(d) => ScenarioView::Physical {
                w: d.w,
                h: d.h,
                unit: d.unit,
            },
            ResizeScenario::PixelResize(d) => ScenarioView::Pixel {
                w: d.w as int,
                h: d.h as int,
                unit: d.unit,
            },
            ResizeScenario::ClarifyUnit(r) => ScenarioView::Clarify(r@),
            ResizeScenario::FractionalPixels(r) => ScenarioView::Fractional(r@),
        }
    }
}

/// Does either numeric token of `v` contain a decimal point?
pub open spec fn spec_has_decimal(v: RawView) -> bool {
    dot_index(v.width) is Some || dot_index(v.height) is Some
}

/// Classification once the effective unit is known.
///
/// With `Pixels`, a decimal point in either token is a fractional-pixel
/// rejection, and otherwise both tokens must read as whole `i32` values;
/// with a physical unit both tokens must read as exact decimals.
pub open spec fn spec_classify_with(v: RawView, u: Unit) -> Result<ScenarioView, DimensionError> {
    if u == Unit::Pixels && spec_has_decimal(v) {
        Ok(ScenarioView::Fractional(v))
    } else if u == Unit::Pixels {
        if is_int_token(v.width) && digits_val(v.width) <= i32::MAX && is_int_token(v.height)
            && digits_val(v.height) <= i32::MAX {
            Ok(
                ScenarioView::Pixel {
                    w: digits_val(v.width),
                    h: digits_val(v.height),
                    unit: Unit::Pixels,
                },
            )
        } else {
            Err(DimensionError::MalformedNumber)
        }
    } else {
        if is_num_token(v.width) && num_mantissa(v.width) <= u64::MAX && num_scale(v.width)
            <= MAX_DECIMAL_SCALE && is_num_token(v.height) && num_mantissa(v.height) <= u64::MAX
            && num_scale(v.height) <= MAX_DECIMAL_SCALE {
            Ok(
                ScenarioView::Physical {
                    w: Decimal {
                        mantissa: num_mantissa(v.width) as u64,
                        scale: num_scale(v.width) as u32,
                    },
                    h: Decimal {
                        mantissa: num_mantissa(v.height) as u64,
                        scale: num_scale(v.height) as u32,
                    },
                    unit: u,
                },
            )
        } else {
            Err(DimensionError::MalformedNumber)
        }
    }
}

/// What classifying one extraction yields.
///
/// If both unit tokens are present they are parsed independently: tokens
/// outside the synonym table fail, and tokens denoting different units ask
/// for clarification.  Otherwise the effective unit is the inline token if
/// present, else the trailing token if present, else `Pixels`.
pub open spec fn spec_classify(v: RawView) -> Result<ScenarioView, DimensionError> {
    match (v.inline_unit, v.unit) {
        (Some(a), Some(b)) => match (unit_of_token(a), unit_of_token(b)) {
            (Some(ua), Some(ub)) => if ua != ub {
                Ok(ScenarioView::Clarify(v))
            } else {
                spec_classify_with(v, ua)
            },
            _ => Err(DimensionError::UnrecognizedUnit),
        },
        (Some(a), None) => match unit_of_token(a) {
            Some(ua) => spec_classify_with(v, ua),
            None => Err(DimensionError::UnrecognizedUnit),
        },
        (None, Some(b)) => match unit_of_token(b) {
            Some(ub) => spec_classify_with(v, ub),
            None => Err(DimensionError::UnrecognizedUnit),
        },
        (None, None) => spec_classify_with(v, Unit::Pixels),
    }
}

/// What the extractor guarantees of every record it emits: both numeric
/// fields are numeric tokens, and both unit fields, where present, are
/// synonyms from the table.
pub open spec fn raw_wellformed(v: RawView) -> bool {
    &&& is_num_token(v.width)
    &&& is_num_token(v.height)
    &&& match v.inline_unit {
        Some(t) => unit_of_token(t) is Some,
        None => true,
    }
    &&& match v.unit {
        Some(t) => unit_of_token(t) is Some,
        None => true,
    }
}

/// Classification is total: every well-formed extraction whose numbers
/// are within machine range yields a scenario, never an error.
///
/// The range bound is what the machine forces: a numeric token whose
/// digits (the decimal point dropped) exceed `i32::MAX` reads as no
/// `i32`, and one with more than [`MAX_DECIMAL_SCALE`] fractional digits
/// reads as no exact decimal.
pub proof fn lemma_classify_total(v: RawView)
    requires
        raw_wellformed(v),
        num_mantissa(v.width) <= i32::MAX,
        num_mantissa(v.height) <= i32::MAX,
        num_scale(v.width) <= MAX_DECIMAL_SCALE,
        num_scale(v.height) <= MAX_DECIMAL_SCALE,
    ensures
        spec_classify(v) is Ok,
{
    assert(forall|u: Unit| spec_classify_with(v, u) is Ok) by {
        assert forall|u: Unit| spec_classify_with(v, u) is Ok by {
            if u == Unit::Pixels && !spec_has_decimal(v) {
                assert(dot_index(v.width) is None);
                assert(dot_index(v.height) is None);
                assert(digits_val(v.width) == num_mantissa(v.width));
                assert(digits_val(v.height) == num_mantissa(v.height));
            }
        }
    }
}

/// Classification is deterministic: one extraction, one result, on every
/// run.
pub proof fn lemma_classify_deterministic(
    v: RawView,
    r1: Result<ScenarioView, DimensionError>,
    r2: Result<ScenarioView, DimensionError>,
)
    requires
        r1 == spec_classify(v),
        r2 == spec_classify(v),
    ensures
        r1 == r2,
{
}

impl RawResizeDetails {
    /// Does the raw width or the raw height contain a decimal point?
    pub fn has_decimal(&self) -> (r: bool)
        ensures
            r == spec_has_decimal(self@),
    {
        let w = crate::num::find_dot_exec(self.raw_width.as_str());
        if w.is_some() {
            return true;
        }
        let h = crate::num::find_dot_exec(self.raw_height.as_str());
        h.is_some()
    }

    /// Classifies this extraction into exactly one scenario.
    ///
    /// Errors guard against drift between the extraction grammar and the
    /// classifier: they arise only for unit tokens outside the synonym
    /// table or numeric tokens that are malformed or out of machine range,
    /// none of which the extractor emits for inputs of ordinary size.
    pub fn scenario(self) -> (r: Result<ResizeScenario, DimensionError>)
        ensures
            r is Ok <==> spec_classify(self@) is Ok,
            r is Ok ==> spec_classify(self@) == Ok::<ScenarioView, DimensionError>(r->Ok_0@),
            r is Err ==> spec_classify(self@) == Err::<ScenarioView, DimensionError>(r->Err_0),
    {
        let effective: Unit = match (&self.raw_inline_unit, &self.raw_unit) {
            (Some(a), Some(b)) => {
                let ua = match Unit::parse(a.as_str()) {
                    Ok(u) => u,
                    Err(e) => {
                        return Err(e);
                    },
                };
                let ub = match Unit::parse(b.as_str()) {
                    Ok(u) => u,
                    Err(e) => {
                        return Err(e);
                    },
                };
                if ua != ub {
                    return Ok(ResizeScenario::ClarifyUnit(self));
                }
                ua
            },
            (Some(a), None) => {
                match Unit::parse(a.as_str()) {
                    Ok(u) => u,
                    Err(e) => {
                        return Err(e);
                    },
                }
            },
            (None, Some(b)) => {
                match Unit::parse(b.as_str()) {
                    Ok(u) => u,
                    Err(e) => {
                        return Err(e);
                    },
                }
            },
            (None, None) => Unit::Pixels,
        };
        if matches!(effective, Unit::Pixels) {
            if self.has_decimal() {
                return Ok(ResizeScenario::FractionalPixels(self));
            }
            let w = match parse_i32(self.raw_width.as_str()) {
                Ok(v) => v,
                Err(e) => {
                    return Err(e);
                },
            };
            let h = match parse_i32(self.raw_height.as_str()) {
                Ok(v) => v,
                Err(e) => {
                    return Err(e);
                },
            };
            Ok(ResizeScenario::PixelResize(DimensionsI32 { w, h, unit: Unit::Pixels }))
        } else {
            let w = match parse_decimal(self.raw_width.as_str()) {
                Ok(v) => v,
                Err(e) => {
                    return Err(e);
                },
            };
            let h = match parse_decimal(self.raw_height.as_str()) {
                Ok(v) => v,
                Err(e) => {
                    return Err(e);
                },
            };
            Ok(
                ResizeScenario::PhysicalResize(
                    DimensionsDecimal { w, h, unit: effective },
                ),
            )
        }
    }
}

} // verus!
