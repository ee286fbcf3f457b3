use version::{NumberError, Version, VersionError};

#[test]
fn from_str() {
    assert_eq!(Version::new(0, 1, 0), "0.1".parse().ok().unwrap());
    assert_eq!(Version::new(0, 1, 0), "0.1.0".parse().ok().unwrap());
    assert!("0.1.".parse::<Version>().is_err());
    assert!("0..".parse::<Version>().is_err());
    assert!("..".parse::<Version>().is_err());
    assert!("0.1.0.0".parse::<Version>().is_err());
}

#[test]
fn parse_full_text() {
    assert_eq!(Version::parse("1.2.3"), Ok(Version::new(1, 2, 3)));
    assert_eq!(Version::parse("0.0.0"), Ok(Version::new(0, 0, 0)));
    assert_eq!(Version::parse("10.200.3000"), Ok(Version::new(10, 200, 3000)));
}

#[test]
fn parse_defaults_missing_segments_to_zero() {
    assert_eq!(Version::parse("5"), Ok(Version::new(5, 0, 0)));
    assert_eq!(Version::parse("5.1"), Ok(Version::new(5, 1, 0)));
}

#[test]
fn parse_rejects_empty_segments() {
    let empty = Err(VersionError::ParseError(NumberError::Empty));
    assert_eq!(Version::parse("0.1."), empty);
    assert_eq!(Version::parse("0.."), empty);
    assert_eq!(Version::parse(".."), empty);
    assert_eq!(Version::parse(""), empty);
    assert_eq!(Version::parse("."), empty);
    assert_eq!(Version::parse(".1"), empty);
    assert_eq!(Version::parse("1..2"), empty);
}

#[test]
fn parse_counts_the_segments_when_too_many() {
    assert_eq!(Version::parse("0.1.0.0"), Err(VersionError::TooManyDecimals(4)));
    assert_eq!(Version::parse("1.2.3.4.5"), Err(VersionError::TooManyDecimals(5)));
    assert_eq!(Version::parse("1.2.3."), Err(VersionError::TooManyDecimals(4)));
    assert_eq!(Version::parse("1.2.3...."), Err(VersionError::TooManyDecimals(7)));
    assert_eq!(Version::parse("1.2.3.x"), Err(VersionError::TooManyDecimals(4)));
}

#[test]
fn parse_reports_the_first_bad_segment() {
    let invalid = Err(VersionError::ParseError(NumberError::InvalidDigit));
    let empty = Err(VersionError::ParseError(NumberError::Empty));
    let overflow = Err(VersionError::ParseError(NumberError::Overflow));
    assert_eq!(Version::parse("a.1.2.3"), invalid);
    assert_eq!(Version::parse("1.2.x.4"), invalid);
    assert_eq!(Version::parse("x..4294967296"), invalid);
    assert_eq!(Version::parse("1..x"), empty);
    assert_eq!(Version::parse("1.4294967296.x"), overflow);
    assert_eq!(Version::parse("1.2.4294967296.4"), overflow);
}

#[test]
fn parse_accepts_digits_only() {
    let invalid = Err(VersionError::ParseError(NumberError::InvalidDigit));
    assert_eq!(Version::parse("+1"), invalid);
    assert_eq!(Version::parse("-1"), invalid);
    assert_eq!(Version::parse("1.+2"), invalid);
    assert_eq!(Version::parse(" 1.2.3"), invalid);
    assert_eq!(Version::parse("1.2.3 "), invalid);
    assert_eq!(Version::parse("1. 2.3"), invalid);
    assert_eq!(Version::parse("v1.2.3"), invalid);
    assert_eq!(Version::parse("1.2.3-beta"), invalid);
    assert_eq!(Version::parse("1,2,3"), invalid);
    assert_eq!(Version::parse("0x10"), invalid);
    assert_eq!(Version::parse("\u{ff11}.2"), invalid);
    assert_eq!(Version::parse("1.\u{e9}"), invalid);
}

#[test]
fn parse_bounds_each_component_by_u32() {
    let overflow = Err(VersionError::ParseError(NumberError::Overflow));
    assert_eq!(
        Version::parse("4294967295.4294967295.4294967295"),
        Ok(Version::new(u32::MAX, u32::MAX, u32::MAX))
    );
    assert_eq!(Version::parse("4294967296"), overflow);
    assert_eq!(Version::parse("0.4294967296"), overflow);
    assert_eq!(Version::parse("0.0.4294967296"), overflow);
    assert_eq!(Version::parse("42949672950"), overflow);
    assert_eq!(Version::parse("99999999999999999999999999"), overflow);
}

#[test]
fn parse_reads_leading_zeros() {
    assert_eq!(Version::parse("007.01.0"), Ok(Version::new(7, 1, 0)));
    assert_eq!(Version::parse("00000000000000000000001"), Ok(Version::new(1, 0, 0)));
    assert_eq!(Version::parse("0000000004294967295"), Ok(Version::new(u32::MAX, 0, 0)));
}

#[test]
fn parse_reads_a_segment_from_the_left() {
    let invalid = Err(VersionError::ParseError(NumberError::InvalidDigit));
    let overflow = Err(VersionError::ParseError(NumberError::Overflow));
    assert_eq!(Version::parse("4294967295x"), invalid);
    assert_eq!(Version::parse("4294967296x"), overflow);
    assert_eq!(Version::parse("99999999999x"), overflow);
    assert_eq!(Version::parse("x99999999999"), invalid);
    assert_eq!(Version::parse("429496729x6"), invalid);
}

#[test]
fn parse_never_reports_empty_text_as_empty() {
    assert_ne!(Version::parse(""), Err(VersionError::Empty));
    assert_ne!(Version::parse_lossy(""), Err(VersionError::Empty));
}

#[test]
fn from_str_and_try_from_read_as_parse_does() {
    let texts = vec!["1.2.3", "5", "", "1.2.3.4", "a", "4294967296", "1..", "9.9"];
    for text in texts {
        let expected = Version::parse(text);
        assert_eq!(text.parse::<Version>(), expected);
        assert_eq!(Version::try_from(text), expected);
    }
}

#[test]
fn number_error_converts_into_version_error() {
    assert_eq!(
        VersionError::from(NumberError::Empty),
        VersionError::ParseError(NumberError::Empty)
    );
    assert_eq!(
        VersionError::from(NumberError::InvalidDigit),
        VersionError::ParseError(NumberError::InvalidDigit)
    );
    let e: VersionError = NumberError::Overflow.into();
    assert_eq!(e, VersionError::ParseError(NumberError::Overflow));
}

#[test]
fn lossy_reads_what_strict_reads() {
    assert_eq!(Version::parse_lossy("1.2.3"), Ok(Version::new(1, 2, 3)));
    assert_eq!(Version::parse_lossy("5"), Ok(Version::new(5, 0, 0)));
    assert_eq!(Version::parse_lossy("5.1"), Ok(Version::new(5, 1, 0)));
    assert_eq!(
        Version::parse_lossy("4294967295.0.4294967295"),
        Ok(Version::new(u32::MAX, 0, u32::MAX))
    );
}

#[test]
fn lossy_splits_on_runs_of_other_characters() {
    assert_eq!(Version::parse_lossy("1-2_3"), Ok(Version::new(1, 2, 3)));
    assert_eq!(Version::parse_lossy("1..2"), Ok(Version::new(1, 2, 0)));
    assert_eq!(Version::parse_lossy("1.x.3"), Ok(Version::new(1, 3, 0)));
    assert_eq!(Version::parse_lossy("1 . 2 . 3"), Ok(Version::new(1, 2, 3)));
    assert_eq!(Version::parse_lossy("1\u{e9}2"), Ok(Version::new(1, 2, 0)));
    assert_eq!(Version::parse_lossy("1.2.3-beta"), Ok(Version::new(1, 2, 3)));
    assert_eq!(Version::parse_lossy("10rc20"), Ok(Version::new(10, 20, 0)));
}

#[test]
fn lossy_ignores_segments_after_the_third() {
    assert_eq!(Version::parse_lossy("1.2.3.4"), Ok(Version::new(1, 2, 3)));
    assert_eq!(Version::parse_lossy("1.2.3.4.5.6"), Ok(Version::new(1, 2, 3)));
    assert_eq!(Version::parse_lossy("1.2.3.99999999999"), Ok(Version::new(1, 2, 3)));
}

#[test]
fn lossy_defaults_bad_minor_and_revision_to_zero() {
    assert_eq!(Version::parse_lossy("1."), Ok(Version::new(1, 0, 0)));
    assert_eq!(Version::parse_lossy("1.2."), Ok(Version::new(1, 2, 0)));
    assert_eq!(Version::parse_lossy("1.99999999999.3"), Ok(Version::new(1, 0, 3)));
    assert_eq!(Version::parse_lossy("1.2.4294967296"), Ok(Version::new(1, 2, 0)));
    assert_eq!(Version::parse_lossy("1.4294967296"), Ok(Version::new(1, 0, 0)));
}

#[test]
fn lossy_needs_a_major_number() {
    let empty = Err(VersionError::ParseError(NumberError::Empty));
    let overflow = Err(VersionError::ParseError(NumberError::Overflow));
    assert_eq!(Version::parse_lossy(""), empty);
    assert_eq!(Version::parse_lossy("v1.2.3"), empty);
    assert_eq!(Version::parse_lossy(".."), empty);
    assert_eq!(Version::parse_lossy(" 1"), empty);
    assert_eq!(Version::parse_lossy("4294967296.1.2"), overflow);
    assert_eq!(Version::parse_lossy("99999999999"), overflow);
}
