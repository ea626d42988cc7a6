use dimmer::brightness::{Brightness, DimmerError};

#[test]
fn parse_absolute_zero() {
    assert_eq!(Brightness::parse_absolute("0"), Ok(Brightness(0)));
}

#[test]
fn parse_absolute_plain() {
    assert_eq!(Brightness::parse_absolute("1234"), Ok(Brightness(1234)));
}

#[test]
fn parse_absolute_rejects_letters() {
    assert_eq!(Brightness::parse_absolute("abc"), Err(DimmerError::ParseError));
}

#[test]
fn parse_absolute_rejects_empty() {
    assert_eq!(Brightness::parse_absolute(""), Err(DimmerError::ParseError));
}

#[test]
fn parse_absolute_rejects_negative() {
    assert_eq!(Brightness::parse_absolute("-3"), Err(DimmerError::ParseError));
}

#[test]
fn parse_absolute_largest_value() {
    assert_eq!(
        Brightness::parse_absolute("18446744073709551615"),
        Ok(Brightness(u64::MAX))
    );
}

#[test]
fn parse_absolute_rejects_overflow() {
    assert_eq!(
        Brightness::parse_absolute("18446744073709551616"),
        Err(DimmerError::ParseError)
    );
}

#[test]
fn parse_percentage_half() {
    assert_eq!(
        Brightness::parse_with_percentage("50%", Brightness(200)),
        Ok(Brightness(100))
    );
}

#[test]
fn parse_percentage_above_hundred_rejected() {
    assert_eq!(
        Brightness::parse_with_percentage("150%", Brightness(200)),
        Err(DimmerError::InvalidPercentage)
    );
}

#[test]
fn parse_percentage_absolute_not_clamped() {
    assert_eq!(
        Brightness::parse_with_percentage("200", Brightness(50)),
        Ok(Brightness(200))
    );
}

#[test]
fn parse_percentage_rounds_toward_zero() {
    assert_eq!(
        Brightness::parse_with_percentage("1%", Brightness(50)),
        Ok(Brightness(0))
    );
    assert_eq!(
        Brightness::parse_with_percentage("33%", Brightness(10)),
        Ok(Brightness(3))
    );
}

#[test]
fn parse_percentage_full_is_maximum() {
    assert_eq!(
        Brightness::parse_with_percentage("100%", Brightness(7)),
        Ok(Brightness(7))
    );
}

#[test]
fn parse_percentage_garbage_prefix_rejected() {
    assert_eq!(
        Brightness::parse_with_percentage("x%", Brightness(100)),
        Err(DimmerError::ParseError)
    );
    assert_eq!(
        Brightness::parse_with_percentage("%", Brightness(100)),
        Err(DimmerError::ParseError)
    );
}

#[test]
fn counter_text_trims_whitespace() {
    assert_eq!(Brightness::from_counter_text("42\n"), Ok(Brightness(42)));
    assert_eq!(Brightness::from_counter_text("  7 \t\r\n"), Ok(Brightness(7)));
}

#[test]
fn counter_text_trims_all_unicode_whitespace() {
    assert_eq!(
        Brightness::from_counter_text("42\u{0B}"),
        Ok(Brightness(42))
    );
    assert_eq!(
        Brightness::from_counter_text("\u{0C}9\u{0B}\n"),
        Ok(Brightness(9))
    );
    assert_eq!(
        Brightness::from_counter_text("\u{A0}\u{2003}7\u{3000}\u{85}"),
        Ok(Brightness(7))
    );
    assert_eq!(
        Brightness::from_counter_text("\u{1680}\u{2028}\u{2029}3\u{202F}\u{205F}\u{200A}"),
        Ok(Brightness(3))
    );
    // Matches std's trim on the same text.
    let text = "\u{0B}\t 42 \u{0C}\r\n";
    assert_eq!(
        Brightness::from_counter_text(text),
        Ok(Brightness(text.trim().parse::<u64>().unwrap()))
    );
}

#[test]
fn counter_text_keeps_non_whitespace_marks() {
    // Zero-width space lacks the White_Space property: std's trim keeps it,
    // and so does the library.
    assert!("\u{200B}5".trim().parse::<u64>().is_err());
    assert_eq!(
        Brightness::from_counter_text("\u{200B}5"),
        Err(DimmerError::ParseError)
    );
}

#[test]
fn counter_text_plain() {
    assert_eq!(Brightness::from_counter_text("255"), Ok(Brightness(255)));
}

#[test]
fn counter_text_rejects_blank() {
    assert_eq!(
        Brightness::from_counter_text("\n"),
        Err(DimmerError::ParseError)
    );
    assert_eq!(
        Brightness::from_counter_text(""),
        Err(DimmerError::ParseError)
    );
}

#[test]
fn counter_text_rejects_inner_garbage() {
    assert_eq!(
        Brightness::from_counter_text(" 4 2 \n"),
        Err(DimmerError::ParseError)
    );
}
