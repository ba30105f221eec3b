use braillify::parse::{ImageSize, RuleParseError, SizeParseError};
use braillify::rule::OnOffRule;

#[test]
fn parses_threshold_rule() {
    assert_eq!(
        OnOffRule::from_str("Threshold(100)"),
        Ok(OnOffRule::PxThreshold(100))
    );
    assert_eq!(
        OnOffRule::from_str("Threshold(0)"),
        Ok(OnOffRule::PxThreshold(0))
    );
    assert_eq!(
        OnOffRule::from_str("Threshold(2147483647)"),
        Ok(OnOffRule::PxThreshold(i32::MAX))
    );
}

#[test]
fn parses_inverted_threshold_rule() {
    assert_eq!(
        OnOffRule::from_str("InvertedThreshold(42)"),
        Ok(OnOffRule::InvertedPxThreshold(42))
    );
}

#[test]
fn parses_border_rule() {
    assert_eq!(
        OnOffRule::from_str("Border(5,2)"),
        Ok(OnOffRule::Border(5, 2))
    );
    assert_eq!(
        OnOffRule::from_str("Border(0,10)"),
        Ok(OnOffRule::Border(0, 10))
    );
}

#[test]
fn rule_number_overflow_is_parse_int_error() {
    assert_eq!(
        OnOffRule::from_str("Threshold(2147483648)"),
        Err(RuleParseError::ParseIntError)
    );
    assert_eq!(
        OnOffRule::from_str("Border(99999999999,1)"),
        Err(RuleParseError::ParseIntError)
    );
    assert_eq!(
        OnOffRule::from_str("Border(1,99999999999)"),
        Err(RuleParseError::ParseIntError)
    );
}

#[test]
fn unknown_rule_text_is_reported() {
    for bad in [
        "foo",
        "",
        "Threshold()",
        "Threshold(12",
        "Threshold(1.5)",
        "threshold(1)",
        "Border(1)",
        "Border(1,)",
        "Border(,1)",
        "Threshold(-3)",
        "Threshold(12)x",
    ] {
        assert_eq!(
            OnOffRule::from_str(bad),
            Err(RuleParseError::UnknownFormat(bad.to_string()))
        );
    }
}

#[test]
fn parses_default_size() {
    assert_eq!(ImageSize::from_str("_"), Ok(ImageSize::Default));
}

#[test]
fn parses_explicit_size() {
    assert_eq!(
        ImageSize::from_str("10x20"),
        Ok(ImageSize::Sized {
            width: 10,
            height: 20
        })
    );
    assert_eq!(
        ImageSize::from_str("0x0"),
        Ok(ImageSize::Sized {
            width: 0,
            height: 0
        })
    );
}

#[test]
fn size_ignores_trailing_segments() {
    // only the first two x-separated segments are read
    assert_eq!(
        ImageSize::from_str("10x20x30"),
        Ok(ImageSize::Sized {
            width: 10,
            height: 20
        })
    );
}

#[test]
fn size_accepts_leading_plus() {
    assert_eq!(
        ImageSize::from_str("+10x+20"),
        Ok(ImageSize::Sized {
            width: 10,
            height: 20
        })
    );
}

#[test]
fn size_without_separator_is_unknown_format() {
    for bad in ["", "10", "abc", "__"] {
        assert_eq!(
            ImageSize::from_str(bad),
            Err(SizeParseError::UnknownSizeFormat(bad.to_string()))
        );
    }
}

#[test]
fn size_with_bad_number_is_parse_int_error() {
    for bad in ["10x", "x20", "ax20", "10xb", "4294967296x1", "1x4294967296", "+x1"] {
        assert_eq!(
            ImageSize::from_str(bad),
            Err(SizeParseError::ParseIntError)
        );
    }
}
