use dimension_parser::num::{i32_to_string, parse_decimal, parse_i32, Decimal};
use dimension_parser::unit::{
    physical_to_pixels, unit_to_inches, DimensionError, Unit,
};

fn dec(mantissa: u64, scale: u32) -> Decimal {
    Decimal { mantissa, scale }
}

#[test]
fn test_unit_conversion() {
    let r = unit_to_inches(&Unit::Centimeters, &dec(10, 0));
    let inches = r.num as f64 / r.den as f64;
    assert!((inches - 3.937).abs() <= 0.005);
}

#[test]
fn test_unit_conversion_is_exact() {
    let r = unit_to_inches(&Unit::Centimeters, &dec(254, 2));
    assert_eq!(r.num, 254 * 100);
    assert_eq!(r.den, 100 * 254);

    let r = unit_to_inches(&Unit::Feet, &dec(3, 0));
    assert_eq!(r.num, 3);
    assert_eq!(r.den, 12);

    let r = unit_to_inches(&Unit::Millimeters, &dec(254, 0));
    assert_eq!(r.num, 2540);
    assert_eq!(r.den, 254);

    let r = unit_to_inches(&Unit::Meters, &dec(1, 0));
    assert_eq!(r.num, 100);
    assert_eq!(r.den, 3937);
}

#[test]
fn test_unit_parse_synonyms() {
    for (token, unit) in [
        ("inches", Unit::Inches),
        ("inch", Unit::Inches),
        ("in", Unit::Inches),
        ("centimeter", Unit::Centimeters),
        ("centimeters", Unit::Centimeters),
        ("cm", Unit::Centimeters),
        ("feet", Unit::Feet),
        ("ft", Unit::Feet),
        ("millimeter", Unit::Millimeters),
        ("millimeters", Unit::Millimeters),
        ("mm", Unit::Millimeters),
        ("meter", Unit::Meters),
        ("meters", Unit::Meters),
        ("m", Unit::Meters),
        ("pixel", Unit::Pixels),
        ("pixels", Unit::Pixels),
        ("px", Unit::Pixels),
    ] {
        assert_eq!(Unit::parse(token).unwrap(), unit);
    }
}

#[test]
fn test_unit_parse_rejects_unknown() {
    assert_eq!(Unit::parse("parsec").unwrap_err(), DimensionError::UnrecognizedUnit);
    assert_eq!(Unit::parse("IN").unwrap_err(), DimensionError::UnrecognizedUnit);
    assert_eq!(Unit::parse("").unwrap_err(), DimensionError::UnrecognizedUnit);
}

#[test]
fn test_parse_i32_exact() {
    assert_eq!(parse_i32("0").unwrap(), 0);
    assert_eq!(parse_i32("3000").unwrap(), 3000);
    assert_eq!(parse_i32("2147483647").unwrap(), 2147483647);
    assert_eq!(parse_i32("2147483648").unwrap_err(), DimensionError::MalformedNumber);
    assert_eq!(parse_i32("").unwrap_err(), DimensionError::MalformedNumber);
    assert_eq!(parse_i32("12a").unwrap_err(), DimensionError::MalformedNumber);
    assert_eq!(parse_i32("1.5").unwrap_err(), DimensionError::MalformedNumber);
}

#[test]
fn test_parse_decimal_exact() {
    assert_eq!(parse_decimal("5").unwrap(), dec(5, 0));
    assert_eq!(parse_decimal("2.67").unwrap(), dec(267, 2));
    assert_eq!(parse_decimal("3000.9").unwrap(), dec(30009, 1));
    assert_eq!(parse_decimal("0.5").unwrap(), dec(5, 1));
    assert_eq!(parse_decimal(".5").unwrap_err(), DimensionError::MalformedNumber);
    assert_eq!(parse_decimal("5.").unwrap_err(), DimensionError::MalformedNumber);
    assert_eq!(parse_decimal("1.2.3").unwrap_err(), DimensionError::MalformedNumber);
    assert_eq!(parse_decimal("").unwrap_err(), DimensionError::MalformedNumber);
    assert_eq!(
        parse_decimal("1.23456789012345678901").unwrap_err(),
        DimensionError::MalformedNumber
    );
}

#[test]
fn test_i32_to_string() {
    assert_eq!(i32_to_string(0), "0");
    assert_eq!(i32_to_string(7), "7");
    assert_eq!(i32_to_string(3000), "3000");
    assert_eq!(i32_to_string(-72), "-72");
    assert_eq!(i32_to_string(i32::MAX), "2147483647");
    assert_eq!(i32_to_string(i32::MIN), "-2147483648");
}

#[test]
fn test_physical_to_pixels_formula() {
    // 5 inches at 300 DPI are 1500 pixels.
    assert_eq!(physical_to_pixels(&dec(5, 0), &Unit::Inches, 300), 1500);
    // 2.67 inches at 300 DPI are exactly 801 pixels.
    assert_eq!(physical_to_pixels(&dec(267, 2), &Unit::Inches, 300), 801);
    // 254 millimeters are 10 inches.
    assert_eq!(physical_to_pixels(&dec(254, 0), &Unit::Millimeters, 300), 3000);
    // 2.54 centimeters are one inch.
    assert_eq!(physical_to_pixels(&dec(254, 2), &Unit::Centimeters, 100), 100);
    // Half a pixel rounds away from zero: 0.5 in at 301 DPI is 150.5.
    assert_eq!(physical_to_pixels(&dec(5, 1), &Unit::Inches, 301), 151);
    // A negative DPI gives a negative size, rounded away from zero.
    assert_eq!(physical_to_pixels(&dec(5, 1), &Unit::Inches, -301), -151);
}
