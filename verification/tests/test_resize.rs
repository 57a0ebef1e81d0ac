use dimension_parser::num::Decimal;
use dimension_parser::resize::{
    parse_resize_details, DimensionsDecimal, DimensionsI32, RawResizeDetails, ResizeScenario,
};
use dimension_parser::unit::{DimensionError, Unit};

fn dec(mantissa: u64, scale: u32) -> Decimal {
    Decimal { mantissa, scale }
}

fn check_parse_resize_details(text: &str, result: ResizeScenario) {
    let s = parse_resize_details(text)
        .into_iter()
        .map(|x| x.scenario().unwrap())
        .collect::<Vec<_>>();
    assert_eq!(s, vec![result])
}

#[test]
fn test_input_formats() {
    check_parse_resize_details(
        "3000x3000",
        ResizeScenario::PixelResize(DimensionsI32 {
            w: 3000,
            h: 3000,
            unit: Unit::Pixels,
        }),
    );

    check_parse_resize_details(
        "5x5 in",
        ResizeScenario::PhysicalResize(DimensionsDecimal {
            w: dec(5, 0),
            h: dec(5, 0),
            unit: Unit::Inches,
        }),
    );

    check_parse_resize_details(
        "3 x 2.67 in",
        ResizeScenario::PhysicalResize(DimensionsDecimal {
            w: dec(3, 0),
            h: dec(267, 2),
            unit: Unit::Inches,
        }),
    );

    let units = ["inches", "cm", "in"];
    let bys = ["x", "by"];

    for by in bys {
        for unit in units {
            check_parse_resize_details(
                &format!("3000{unit}{by}3000{unit}"),
                ResizeScenario::PhysicalResize(DimensionsDecimal {
                    w: dec(3000, 0),
                    h: dec(3000, 0),
                    unit: Unit::parse(unit).unwrap(),
                }),
            );
            check_parse_resize_details(
                &format!("3000{unit} {by} 3000{unit}"),
                ResizeScenario::PhysicalResize(DimensionsDecimal {
                    w: dec(3000, 0),
                    h: dec(3000, 0),
                    unit: Unit::parse(unit).unwrap(),
                }),
            );
            check_parse_resize_details(
                &format!("3000 {unit} {by} 3000 {unit}"),
                ResizeScenario::PhysicalResize(DimensionsDecimal {
                    w: dec(3000, 0),
                    h: dec(3000, 0),
                    unit: Unit::parse(unit).unwrap(),
                }),
            );
        }
    }

    let units = ["inches", "cm", "in"];
    let bys = ["x", "by"];

    for by in bys {
        for unit in units {
            check_parse_resize_details(
                &format!("3000.2{unit}{by}3000.9{unit}"),
                ResizeScenario::PhysicalResize(DimensionsDecimal {
                    w: dec(30002, 1),
                    h: dec(30009, 1),
                    unit: Unit::parse(unit).unwrap(),
                }),
            );
            check_parse_resize_details(
                &format!("3000.2{unit} {by} 3000.9{unit}"),
                ResizeScenario::PhysicalResize(DimensionsDecimal {
                    w: dec(30002, 1),
                    h: dec(30009, 1),
                    unit: Unit::parse(unit).unwrap(),
                }),
            );
            check_parse_resize_details(
                &format!("3000.2 {unit} {by} 3000.9 {unit}"),
                ResizeScenario::PhysicalResize(DimensionsDecimal {
                    w: dec(30002, 1),
                    h: dec(30009, 1),
                    unit: Unit::parse(unit).unwrap(),
                }),
            );
        }
    }
}

fn raw(
    width: &str,
    height: &str,
    inline_unit: Option<&str>,
    unit: Option<&str>,
) -> RawResizeDetails {
    RawResizeDetails {
        raw_width: width.to_string(),
        raw_height: height.to_string(),
        raw_inline_unit: inline_unit.map(|s| s.to_string()),
        raw_unit: unit.map(|s| s.to_string()),
    }
}

#[test]
fn test_classify_bare_numbers_are_pixels() {
    assert_eq!(
        raw("3000", "3000", None, None).scenario().unwrap(),
        ResizeScenario::PixelResize(DimensionsI32 {
            w: 3000,
            h: 3000,
            unit: Unit::Pixels,
        })
    );
}

#[test]
fn test_classify_trailing_unit_is_physical() {
    assert_eq!(
        raw("5", "5", None, Some("in")).scenario().unwrap(),
        ResizeScenario::PhysicalResize(DimensionsDecimal {
            w: dec(5, 0),
            h: dec(5, 0),
            unit: Unit::Inches,
        })
    );
}

#[test]
fn test_classify_decimal_physical_height() {
    assert_eq!(
        raw("3", "2.67", None, Some("in")).scenario().unwrap(),
        ResizeScenario::PhysicalResize(DimensionsDecimal {
            w: dec(3, 0),
            h: dec(267, 2),
            unit: Unit::Inches,
        })
    );
}

#[test]
fn test_classify_conflicting_units_ask_for_clarification() {
    let r = raw("10", "10", Some("in"), Some("cm"));
    assert_eq!(
        r.clone().scenario().unwrap(),
        ResizeScenario::ClarifyUnit(r)
    );
}

#[test]
fn test_classify_agreeing_units_resolve_normally() {
    assert_eq!(
        raw("10", "10", Some("cm"), Some("cm")).scenario().unwrap(),
        ResizeScenario::PhysicalResize(DimensionsDecimal {
            w: dec(10, 0),
            h: dec(10, 0),
            unit: Unit::Centimeters,
        })
    );
}

#[test]
fn test_classify_fractional_pixels_rejected() {
    let r = raw("10.5", "10", None, None);
    assert_eq!(
        r.clone().scenario().unwrap(),
        ResizeScenario::FractionalPixels(r)
    );
}

#[test]
fn test_classify_unrecognized_unit() {
    assert_eq!(
        raw("10", "10", None, Some("parsecs")).scenario().unwrap_err(),
        DimensionError::UnrecognizedUnit
    );
}

#[test]
fn test_classify_pixel_overflow_is_malformed() {
    assert_eq!(
        raw("99999999999", "10", None, None).scenario().unwrap_err(),
        DimensionError::MalformedNumber
    );
}

#[test]
fn test_extract_single_match_verbatim() {
    let recs = parse_resize_details("please make it 3000 x 2000 px, thanks");
    assert_eq!(recs.len(), 1);
    assert_eq!(recs[0].raw_width, "3000");
    assert_eq!(recs[0].raw_height, "2000");
    assert_eq!(recs[0].raw_inline_unit, None);
    assert_eq!(recs[0].raw_unit, Some("px".to_string()));
}

#[test]
fn test_extract_no_match() {
    assert!(parse_resize_details("no dimensions here").is_empty());
}

#[test]
fn test_extract_multiple_matches_in_order() {
    let recs = parse_resize_details("either 1x2 or 300 by 400");
    assert_eq!(recs.len(), 2);
    assert_eq!(recs[0].raw_width, "1");
    assert_eq!(recs[0].raw_height, "2");
    assert_eq!(recs[1].raw_width, "300");
    assert_eq!(recs[1].raw_height, "400");
}

#[test]
fn test_extract_inline_unit() {
    let recs = parse_resize_details("5in x 3");
    assert_eq!(recs.len(), 1);
    assert_eq!(recs[0].raw_inline_unit, Some("in".to_string()));
    assert_eq!(recs[0].raw_unit, None);
}

#[test]
fn test_extract_is_idempotent() {
    for text in [
        "3000x3000",
        "5x5 in",
        "either 1x2 or 300 by 400",
        "no dimensions here",
        "10in x 10 cm",
    ] {
        assert_eq!(parse_resize_details(text), parse_resize_details(text));
    }
}

#[test]
fn test_extract_meter_units() {
    check_parse_resize_details(
        "5 x 5 m",
        ResizeScenario::PhysicalResize(DimensionsDecimal {
            w: dec(5, 0),
            h: dec(5, 0),
            unit: Unit::Meters,
        }),
    );
    check_parse_resize_details(
        "5mm x 5",
        ResizeScenario::PhysicalResize(DimensionsDecimal {
            w: dec(5, 0),
            h: dec(5, 0),
            unit: Unit::Millimeters,
        }),
    );
}

#[test]
fn test_classify_is_deterministic() {
    let r = raw("10", "10", Some("in"), Some("cm"));
    assert_eq!(r.clone().scenario(), r.scenario());
    let r = raw("3000", "2000", None, Some("px"));
    assert_eq!(r.clone().scenario(), r.scenario());
}

#[test]
fn test_has_decimal() {
    assert!(raw("10.5", "10", None, None).has_decimal());
    assert!(raw("10", "10.5", None, None).has_decimal());
    assert!(!raw("10", "10", None, None).has_decimal());
}
