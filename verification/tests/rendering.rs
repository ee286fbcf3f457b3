use version::{NumberError, Version, VersionError};

#[test]
fn display_text_joins_the_components_with_dots() {
    assert_eq!(Version::new(1, 2, 3).to_string(), "1.2.3");
    assert_eq!(Version::new(0, 0, 0).to_string(), "0.0.0");
    assert_eq!(Version::new(10, 0, 907).to_string(), "10.0.907");
    assert_eq!(
        Version::new(u32::MAX, 1000000000, 4294967294).to_string(),
        "4294967295.1000000000.4294967294"
    );
}

#[test]
fn debug_text_has_a_leading_v() {
    assert_eq!(Version::new(1, 2, 3).to_debug_string(), "v1.2.3");
    assert_eq!(Version::new(0, 10, 100).to_debug_string(), "v0.10.100");
}

#[test]
fn into_string_gives_the_debug_text() {
    let text: String = Version::new(1, 2, 3).into();
    assert_eq!(text, "v1.2.3");
    let text: String = Version::new(4294967295, 0, 9).into();
    assert_eq!(text, "v4294967295.0.9");
}

#[test]
fn display_text_reads_back() {
    let numbers: Vec<u32> = vec![0, 1, 9, 10, 11, 99, 100, 101, 4096, 1000000000, u32::MAX - 1, u32::MAX];
    for a in numbers.iter() {
        for b in numbers.iter() {
            for c in numbers.iter() {
                let v = Version::new(*a, *b, *c);
                assert_eq!(Version::parse(v.to_string().as_str()), Ok(v.clone()));
                assert_eq!(Version::parse_lossy(v.to_string().as_str()), Ok(v));
            }
        }
    }
}

#[test]
fn debug_text_does_not_read_back() {
    let text: String = Version::new(1, 2, 3).into();
    assert_eq!(
        Version::parse(text.as_str()),
        Err(VersionError::ParseError(NumberError::InvalidDigit))
    );
}

#[test]
fn number_error_messages() {
    assert_eq!(NumberError::Empty.to_string(), "cannot parse integer from empty string");
    assert_eq!(NumberError::InvalidDigit.to_string(), "invalid digit found in string");
    assert_eq!(NumberError::Overflow.to_string(), "number too large to fit in target type");
}

#[test]
fn version_error_messages() {
    assert_eq!(VersionError::Empty.to_string(), "VersionError::Empty");
    assert_eq!(
        VersionError::TooManyDecimals(4).to_string(),
        "VersionError::TooManyDecimals => found 4"
    );
    assert_eq!(
        VersionError::TooManyDecimals(1234567890).to_string(),
        "VersionError::TooManyDecimals => found 1234567890"
    );
    assert_eq!(
        VersionError::TooManyDecimals(usize::MAX).to_string(),
        format!("VersionError::TooManyDecimals => found {}", usize::MAX)
    );
    assert_eq!(
        VersionError::ParseError(NumberError::Empty).to_string(),
        "VersionError::ParseError => cannot parse integer from empty string"
    );
    assert_eq!(
        VersionError::ParseError(NumberError::InvalidDigit).to_string(),
        "VersionError::ParseError => invalid digit found in string"
    );
    assert_eq!(
        VersionError::ParseError(NumberError::Overflow).to_string(),
        "VersionError::ParseError => number too large to fit in target type"
    );
}

#[test]
fn error_messages_of_failed_reads() {
    assert_eq!(
        Version::parse("1.2.3.4").unwrap_err().to_string(),
        "VersionError::TooManyDecimals => found 4"
    );
    assert_eq!(
        Version::parse("1..3").unwrap_err().to_string(),
        "VersionError::ParseError => cannot parse integer from empty string"
    );
}
