use media_extract::{Fraction, MediaError};

#[test]
fn parses_simple_fraction() {
    let f = Fraction::parse("3/4").unwrap();
    assert_eq!(f.numer(), 3);
    assert_eq!(f.denom(), 4);
}

#[test]
fn zero_denominator_is_rejected() {
    let r = Fraction::parse("5/0");
    assert!(matches!(r, Err(MediaError::MetadataParseFailed { .. })));
}

#[test]
fn malformed_text_is_rejected() {
    assert!(Fraction::parse("abc").is_err());
    assert!(Fraction::parse("").is_err());
    assert!(Fraction::parse("/4").is_err());
    assert!(Fraction::parse("3/").is_err());
    assert!(Fraction::parse("3/4/5").is_err());
    assert!(Fraction::parse("3x/4").is_err());
    assert!(Fraction::parse("-3/4").is_err());
    assert!(Fraction::parse("3.5/4").is_err());
}

#[test]
fn large_parts_parse_up_to_32_bits() {
    let f = Fraction::parse("4294967295/1").unwrap();
    assert_eq!(f.numer(), u32::MAX);
    assert!(Fraction::parse("4294967296/1").is_err());
}

#[test]
fn constructor_refuses_zero_denominator() {
    assert!(Fraction::new(1, 0).is_none());
    let f = Fraction::new(1, 1000).unwrap();
    assert_eq!(f.numer(), 1);
    assert_eq!(f.denom(), 1000);
}
